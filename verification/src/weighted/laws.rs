//! What holds of a weighted channel as a whole.
use crate::cursors::{
    lemma_behind_all, lemma_behind_insert, lemma_behind_monotone, lemma_behind_moved,
    lemma_behind_remove, lemma_behind_strict, lemma_behind_witness, lemma_moved_len,
};
use crate::errors::{FullError, TryRecvError, TrySendError};
use crate::laws::advanced;
use crate::signal::Signal;
use crate::weighted::channel::{
    evictions, lemma_evictions_at_most, lemma_total_weight_push, lemma_total_weight_split,
    total_weight, WeightedChannel,
};
use crate::weighted::scale::{Scale, Weight};
use vstd::prelude::*;

verus! {

/// `post` is what a channel may be at some time after it was `pre`: nothing that was sent is
/// forgotten or reordered, the head has not gone back, and a closed channel is still closed.
pub open spec fn later<T, S: Scale<T>>(
    pre: WeightedChannel<T, S>,
    post: WeightedChannel<T, S>,
) -> bool {
    &&& pre.tail() <= post.tail()
    &&& forall|i: int| 0 <= i < pre.tail() ==> pre.sent[i] == #[trigger] post.sent[i]
    &&& pre.head <= post.head
    &&& pre.closed ==> post.closed
}

/// `post` is what one operation, other than one that changes the space as such, makes of `pre`.
pub open spec fn operates<T, S: Scale<T>>(
    pre: WeightedChannel<T, S>,
    post: WeightedChannel<T, S>,
) -> bool {
    ||| exists|pos: nat| #[trigger] pre.receivers.contains(pos) && post == pre.after_read(pos)
    ||| exists|pos: nat| #[trigger] pre.receivers.contains(pos) && post == pre.receiver_leaves(pos)
    ||| exists|msg: T| post == #[trigger] pre.after_send(msg)
    ||| post == pre.closing()
    ||| post == pre.sender_joins()
    ||| post == pre.sender_leaves()
    ||| post == pre.receiver_joins()
    ||| post == pre.with_overflow(true)
    ||| post == pre.with_overflow(false)
    ||| post == pre.send_listens()
    ||| post == pre.recv_listens()
}

/// Time goes on: what comes after something later is later still.
pub proof fn law_later_transitive<T, S: Scale<T>>(
    a: WeightedChannel<T, S>,
    b: WeightedChannel<T, S>,
    c: WeightedChannel<T, S>,
)
    requires
        later(a, b),
        later(b, c),
    ensures
        later(a, c),
{
    assert forall|i: int| 0 <= i < a.tail() implies a.sent[i] == #[trigger] c.sent[i] by {
        assert(a.sent[i] == b.sent[i]);
    }
}

/// No space is lost and none comes from nowhere: the space that is left and the weight of what is
/// held add up to the same, whatever is done to the channel. Every operation leaves what was sent
/// before as it was, moves the head forward if at all, and never opens a closed channel.
pub proof fn law_operations_conserve_space<T, S: Scale<T>>(
    pre: WeightedChannel<T, S>,
    post: WeightedChannel<T, S>,
)
    requires
        pre.coherent(),
        operates(pre, post),
    ensures
        post.space + post.load() == pre.space + pre.load(),
        post.scale == pre.scale,
        later(pre, post),
{
    if exists|pos: nat| #[trigger] pre.receivers.contains(pos) && post == pre.after_read(pos) {
        let pos = choose|pos: nat| #[trigger]
            pre.receivers.contains(pos) && post == pre.after_read(pos);
        lemma_read_keeps(pre, pos);
    } else if exists|pos: nat| #[trigger]
        pre.receivers.contains(pos) && post == pre.receiver_leaves(pos) {
        let pos = choose|pos: nat| #[trigger]
            pre.receivers.contains(pos) && post == pre.receiver_leaves(pos);
        lemma_reading_out_keeps(pre, pos, pre.steps_to_tail(pos));
    } else if exists|msg: T| post == #[trigger] pre.after_send(msg) {
        let msg = choose|msg: T| post == #[trigger] pre.after_send(msg);
        lemma_making_room(pre, msg);
        let roomy = pre.making_room(msg);
        if pre.send_result(msg) is Ok {
            assert(post.queue() =~= roomy.queue().push(msg));
            lemma_total_weight_push(pre.scale, roomy.queue(), msg);
        }
    } else {
        assert(post.queue() =~= pre.queue());
    }
}

/// What an attempt to receive keeps.
proof fn lemma_read_keeps<T, S: Scale<T>>(pre: WeightedChannel<T, S>, pos: nat)
    requires
        pre.coherent(),
        pre.receivers.contains(pos),
    ensures
        pre.after_read(pos).coherent(),
        pre.after_read(pos).receivers.contains(pre.next(pos)),
        pre.after_read(pos).space + pre.after_read(pos).load() == pre.space + pre.load(),
        later(pre, pre.after_read(pos)),
{
    let post = pre.after_read(pos);
    let to = pre.next(pos);
    lemma_moved_len(pre.receivers, pos, to);
    lemma_behind_moved(pre.receivers, pos, to, post.head);
    lemma_behind_witness(post.receivers, post.head);
    lemma_behind_witness(pre.receivers, pos);
    if pre.releases(pos) {
        assert(post.queue() =~= pre.queue().skip(1));
    } else {
        assert(post.queue() =~= pre.queue());
        if pos == pre.head && pre.head < pre.tail() {
            assert(pre.waiting(pre.head) > 1);
        }
    }
}

/// What a receiver that reads and goes keeps.
proof fn lemma_reading_out_keeps<T, S: Scale<T>>(
    pre: WeightedChannel<T, S>,
    pos: nat,
    steps: nat,
)
    requires
        pre.coherent(),
        pre.receivers.contains(pos),
    ensures
        pre.reading_out(pos, steps).space + pre.reading_out(pos, steps).load() == pre.space
            + pre.load(),
        pre.reading_out(pos, steps).scale == pre.scale,
        later(pre, pre.reading_out(pos, steps)),
    decreases steps,
{
    if steps == 0 {
        assert(pre.reading_out(pos, steps).queue() =~= pre.queue());
    } else {
        lemma_read_keeps(pre, pos);
        lemma_reading_out_keeps(pre.after_read(pos), pre.next(pos), (steps - 1) as nat);
    }
}

/// Room is made at the cost of messages that are held, whose weight becomes space.
proof fn lemma_making_room<T, S: Scale<T>>(pre: WeightedChannel<T, S>, msg: T)
    requires
        pre.head <= pre.tail(),
    ensures
        pre.evicts(msg) <= pre.queue().len(),
        pre.making_room(msg).queue() == pre.queue().skip(pre.evicts(msg) as int),
        pre.making_room(msg).space + pre.making_room(msg).load() == pre.space + pre.load(),
{
    lemma_evictions_at_most(pre.scale, pre.queue(), pre.space, pre.scale.weight(&msg));
    assert(pre.making_room(msg).queue() =~= pre.queue().skip(pre.evicts(msg) as int));
    lemma_total_weight_split(pre.scale, pre.queue(), pre.evicts(msg) as int);
}

/// How far evicting the oldest messages goes: it stops as soon as there is room, and not before
/// unless everything has gone.
proof fn lemma_evictions_stop<T, S: Scale<T>>(
    scale: S,
    items: Seq<T>,
    space: nat,
    need: nat,
)
    ensures
        evictions(scale, items, space, need) <= items.len(),
        need <= space + total_weight(
            scale,
            items.take(evictions(scale, items, space, need) as int),
        ) || evictions(scale, items, space, need) == items.len(),
        forall|n: int|
            0 <= n < evictions(scale, items, space, need) ==> need > space + total_weight(
                scale,
                #[trigger] items.take(n),
            ),
    decreases items.len(),
{
    if need > space && items.len() > 0 {
        let rest = items.skip(1);
        let more = space + scale.weight(&items[0]);
        lemma_evictions_stop(scale, rest, more, need);
        let n = evictions(scale, rest, more, need);
        assert(items.take(n as int + 1).skip(1) =~= rest.take(n as int));
        assert forall|k: int|
            0 <= k < evictions(scale, items, space, need) implies need > space + total_weight(
            scale,
            #[trigger] items.take(k),
        ) by {
            if k > 0 {
                assert(items.take(k).skip(1) =~= rest.take(k - 1));
                assert(items.take(k)[0] == items[0]);
            }
        }
    }
}

/// An open channel takes a message that fits, and changes nothing else about what it holds.
/// Without overflow mode it takes no other, and a message that it does not take leaves it as it
/// was.
pub proof fn law_message_that_fits_is_taken<T, S: Scale<T>>(pre: WeightedChannel<T, S>, msg: T)
    requires
        pre.coherent(),
        !pre.closed,
    ensures
        pre.scale.weight(&msg) <= pre.space ==> {
            &&& pre.send_result(msg) is Ok
            &&& pre.after_send(msg).queue() == pre.queue().push(msg)
            &&& pre.after_send(msg).space == pre.space - pre.scale.weight(&msg)
        },
        pre.scale.weight(&msg) > pre.space && !pre.overflow ==> {
            &&& pre.send_result(msg) == Err::<(), _>(
                TrySendError::<T>::Full { msg, error: FullError },
            )
            &&& pre.after_send(msg) == pre
        },
{
    assert(pre.queue().take(0) =~= Seq::<T>::empty());
    if pre.scale.weight(&msg) <= pre.space {
        assert(pre.after_send(msg).queue() =~= pre.queue().push(msg));
    } else if !pre.overflow {
        assert(pre.after_send(msg) =~= pre);
    }
}

/// In overflow mode an open channel takes every message that is not too heavy for it altogether.
/// Only the oldest messages go for it, and no more of them than necessary.
pub proof fn law_overflow_drops_no_more_than_needed<T, S: Scale<T>>(
    pre: WeightedChannel<T, S>,
    msg: T,
)
    requires
        pre.coherent(),
        !pre.closed,
        pre.overflow,
    ensures
        pre.send_result(msg) is Ok <==> pre.scale.weight(&msg) <= pre.space + pre.load(),
        pre.evicts(msg) <= pre.queue().len(),
        pre.send_result(msg) is Ok ==> pre.after_send(msg).queue() == pre.queue().skip(
            pre.evicts(msg) as int,
        ).push(msg),
        forall|n: nat|
            n < pre.evicts(msg) ==> #[trigger] pre.without_oldest(n).space < pre.scale.weight(&msg),
        pre.send_result(msg) is Err ==> pre.after_send(msg).queue().len() == 0,
{
    let need = pre.scale.weight(&msg);
    let n = pre.evicts(msg);
    lemma_evictions_stop(pre.scale, pre.queue(), pre.space, need);
    lemma_making_room(pre, msg);
    assert forall|k: nat| k < n implies #[trigger] pre.without_oldest(k).space < need by {
        assert(need > pre.space + total_weight(pre.scale, pre.queue().take(k as int)));
    }
    if pre.send_result(msg) is Ok {
        assert(pre.after_send(msg).queue() =~= pre.queue().skip(n as int).push(msg));
    }
    if n == pre.queue().len() {
        assert(pre.queue().take(n as int) =~= pre.queue());
    } else {
        assert(need <= pre.making_room(msg).space);
    }
}

/// A message that could not be sent comes back in the error.
pub proof fn law_refused_message_comes_back<T, S: Scale<T>>(
    pre: WeightedChannel<T, S>,
    msg: T,
)
    ensures
        match pre.send_result(msg) {
            Ok(_) => pre.after_send(msg).sent == pre.sent.push(msg),
            Err(error) => {
                &&& error.unsent() == msg
                &&& pre.after_send(msg).sent == pre.sent
                &&& error.retryable() == !pre.closed
            },
        },
{
}

/// What is sent is what is received: a message that has been sent gets the next free number, and
/// whoever reads at that number, now or later, reads that message, as long as the channel holds
/// it.
pub proof fn law_read_gives_what_was_sent<T, S: Scale<T>>(
    pre: WeightedChannel<T, S>,
    msg: T,
    now: WeightedChannel<T, S>,
)
    requires
        pre.send_result(msg) is Ok,
        later(pre.after_send(msg), now),
    ensures
        now.head <= pre.tail() ==> now.reads(pre.tail()) == Ok::<T, TryRecvError>(msg),
        now.head > pre.tail() ==> now.reads(pre.tail()) is Err,
{
    let post = pre.after_send(msg);
    assert(post.sent[pre.tail() as int] == msg);
    assert(now.sent[pre.tail() as int] == msg);
}

/// Each message is there for every receiver: right after it was sent, all receivers wait for it.
pub proof fn law_message_awaits_every_receiver<T, S: Scale<T>>(
    pre: WeightedChannel<T, S>,
    msg: T,
)
    requires
        pre.coherent(),
        pre.send_result(msg) is Ok,
    ensures
        pre.after_send(msg).receivers == pre.receivers,
        pre.after_send(msg).waiting(pre.tail()) == pre.receivers.len(),
{
    lemma_behind_all(pre.receivers, pre.tail());
}

/// A receiver reads each message once: after it has read the message at its position, one
/// receiver less waits for that message, and as many as before wait for any other one. A message
/// leaves the channel exactly when the last receiver has read it, and then its space is free.
pub proof fn law_each_receiver_reads_once<T, S: Scale<T>>(
    pre: WeightedChannel<T, S>,
    pos: nat,
    other: nat,
)
    requires
        pre.coherent(),
        pre.receivers.contains(pos),
        pre.reads(pos) is Ok,
        other != pos,
    ensures
        pre.after_read(pos).waiting(pos) + 1 == pre.waiting(pos),
        pre.after_read(pos).waiting(other) == pre.waiting(other),
        pre.next(pos) == pos + 1,
        pre.after_read(pos).receivers == pre.receivers.remove(pos).insert(pos + 1),
        pre.after_read(pos).head <= pos <==> pre.after_read(pos).waiting(pos) > 0,
        pre.after_read(pos).space == pre.space + if pre.after_read(pos).waiting(pos) == 0 {
            pre.scale.weight(&pre.sent[pos as int])
        } else {
            0
        },
{
    lemma_behind_moved(pre.receivers, pos, pos + 1, pos);
    lemma_behind_moved(pre.receivers, pos, pos + 1, other);
    if pre.head < pos {
        lemma_behind_strict(pre.receivers, pre.head, pos, pos);
    }
}

/// A receiver that keeps receiving gets an unbroken run of the log: if it starts at `pos` and
/// receives a message at each of the moments `moments`, one after the other, then these are the
/// messages with the numbers from `pos` on, in order, whatever else happens meanwhile.
pub proof fn law_receives_in_order<T, S: Scale<T>>(
    moments: Seq<WeightedChannel<T, S>>,
    pos: nat,
    received: Seq<T>,
    now: WeightedChannel<T, S>,
)
    requires
        received.len() == moments.len(),
        forall|k: int|
            0 <= k < moments.len() ==> (#[trigger] moments[k]).reads((pos + k) as nat) == Ok::<
                T,
                TryRecvError,
            >(received[k]),
        forall|k: int| 0 <= k < moments.len() ==> later(#[trigger] moments[k], now),
    ensures
        forall|k: int|
            0 <= k < moments.len() ==> (#[trigger] moments[k]).next((pos + k) as nat) == pos + k
                + 1,
        moments.len() > 0 ==> pos + moments.len() <= now.tail() && received == now.sent.subrange(
            pos as int,
            (pos + moments.len()) as int,
        ),
{
    if moments.len() > 0 {
        let n = moments.len() as int;
        let last = moments[n - 1];
        assert(last.reads((pos + (n - 1)) as nat) is Ok);
        assert forall|k: int| 0 <= k < n implies received[k] == now.sent[pos + k] by {
            let at = moments[k];
            assert(at.reads((pos + k) as nat) == Ok::<T, TryRecvError>(received[k]));
            assert(at.sent[pos + k] == now.sent[pos + k]);
        }
        assert(received =~= now.sent.subrange(pos as int, (pos + n) as int));
    }
}

/// A receiver always knows where it is in the log, also after it missed messages: if it starts at
/// `positions[0]` and attempts to receive at each of the moments `moments`, whatever else happens
/// meanwhile, then at each of them it is as many messages further as it has received and has been
/// told that it missed, and what it receives is the message with that number.
pub proof fn law_receives_by_number<T, S: Scale<T>>(
    moments: Seq<WeightedChannel<T, S>>,
    positions: Seq<nat>,
    answers: Seq<Result<T, TryRecvError>>,
    now: WeightedChannel<T, S>,
    k: int,
)
    requires
        positions.len() == moments.len() + 1,
        answers.len() == moments.len(),
        forall|i: int| 0 <= i < moments.len() ==> (#[trigger] moments[i]).coherent(),
        forall|i: int| 0 <= i < moments.len() ==> later(#[trigger] moments[i], now),
        forall|i: int|
            0 <= i < moments.len() ==> answers[i] == (#[trigger] moments[i]).reads(positions[i]),
        forall|i: int, j: int|
            0 <= i < moments.len() && j == i + 1 ==> #[trigger] positions[j] == (
            #[trigger] moments[i]).next(positions[i]),
        0 <= k <= moments.len(),
    ensures
        positions[k] == positions[0] + advanced(answers.take(k)),
        k < moments.len() ==> match answers[k] {
            Ok(m) => positions[k] < now.tail() && m == now.sent[positions[k] as int],
            Err(_) => true,
        },
    decreases k,
{
    if k > 0 {
        law_receives_by_number(moments, positions, answers, now, k - 1);
        let at = moments[k - 1];
        assert(positions[k] == at.next(positions[k - 1]));
        assert(answers.take(k).drop_last() =~= answers.take(k - 1));
        assert(answers.take(k).last() == answers[k - 1]);
    } else {
        assert(answers.take(0).len() == 0);
    }
    if k < moments.len() && answers[k] is Ok {
        let at = moments[k];
        assert(at.sent[positions[k] as int] == now.sent[positions[k] as int]);
    }
}

/// A receiver that missed messages learns how many, and goes on with the oldest one that is left.
pub proof fn law_overflow_counts_missed<T, S: Scale<T>>(pre: WeightedChannel<T, S>, pos: nat)
    requires
        pre.coherent(),
        pos < pre.head,
    ensures
        pre.reads(pos) matches Err(TryRecvError::Overflowed(n)) && n == pre.head - pos,
        pre.next(pos) == pre.head == pre.after_read(pos).head,
        pre.after_read(pos).queue() == pre.queue(),
{
}

/// Nobody has missed a message that is still to be read: no receiver is before the head.
pub open spec fn nobody_missed<T, S: Scale<T>>(channel: WeightedChannel<T, S>) -> bool {
    forall|p: nat| #[trigger] channel.receivers.contains(p) ==> channel.head <= p
}

/// Without overflow mode nobody misses a message: as long as it is not enabled, no operation takes
/// a message away from a receiver that has to read it.
pub proof fn law_nobody_misses_without_overflow<T, S: Scale<T>>(
    pre: WeightedChannel<T, S>,
    post: WeightedChannel<T, S>,
)
    requires
        pre.coherent(),
        !pre.overflow,
        nobody_missed(pre),
        operates(pre, post),
    ensures
        nobody_missed(post),
        forall|p: nat| #[trigger]
            post.receivers.contains(p) ==> !(post.reads(p) matches Err(
                TryRecvError::Overflowed(_),
            )),
{
    if exists|pos: nat| #[trigger] pre.receivers.contains(pos) && post == pre.after_read(pos) {
        let pos = choose|pos: nat| #[trigger]
            pre.receivers.contains(pos) && post == pre.after_read(pos);
        lemma_read_misses_nothing(pre, pos);
    } else if exists|pos: nat| #[trigger]
        pre.receivers.contains(pos) && post == pre.receiver_leaves(pos) {
        let pos = choose|pos: nat| #[trigger]
            pre.receivers.contains(pos) && post == pre.receiver_leaves(pos);
        lemma_reading_out_misses_nothing(pre, pos, pre.steps_to_tail(pos));
    } else {
        assert forall|p: nat| #[trigger] post.receivers.contains(p) implies post.head <= p by {
            assert(p == pre.tail() || pre.receivers.contains(p));
        }
    }
}

proof fn lemma_read_misses_nothing<T, S: Scale<T>>(pre: WeightedChannel<T, S>, pos: nat)
    requires
        nobody_missed(pre),
        pre.receivers.contains(pos),
    ensures
        nobody_missed(pre.after_read(pos)),
        pre.after_read(pos).receivers.contains(pre.next(pos)),
{
    lemma_moved_len(pre.receivers, pos, pre.next(pos));
    if pre.releases(pos) {
        // Nobody else was waiting for the message that went.
        lemma_behind_remove(pre.receivers, pos, pos);
        lemma_behind_witness(pre.receivers.remove(pos), pos);
        let post = pre.after_read(pos);
        assert forall|p: nat| #[trigger] post.receivers.contains(p) implies post.head <= p by {
            if p != pos + 1 {
                assert(pre.receivers.remove(pos).contains(p));
            }
        }
    }
}

proof fn lemma_reading_out_misses_nothing<T, S: Scale<T>>(
    pre: WeightedChannel<T, S>,
    pos: nat,
    steps: nat,
)
    requires
        nobody_missed(pre),
        pre.receivers.contains(pos),
    ensures
        nobody_missed(pre.reading_out(pos, steps)),
    decreases steps,
{
    let post = pre.reading_out(pos, steps);
    if steps == 0 {
        assert forall|p: nat| #[trigger] post.receivers.contains(p) implies post.head <= p by {
            assert(pre.receivers.contains(p));
        }
    } else {
        lemma_read_misses_nothing(pre, pos);
        lemma_reading_out_misses_nothing(pre.after_read(pos), pre.next(pos), (steps - 1) as nat);
    }
}

/// Once every receiver has read everything, and also where there is none, the channel is empty
/// and all of its space is free.
pub proof fn law_all_read_frees_all_space<T, S: Scale<T>>(channel: WeightedChannel<T, S>)
    requires
        channel.coherent(),
        forall|p: nat| #[trigger] channel.receivers.contains(p) ==> p >= channel.tail(),
    ensures
        channel.queue().len() == 0,
        channel.load() == 0,
{
    lemma_behind_witness(channel.receivers, channel.head);
}

/// A receiver that goes takes nothing from anybody: the log stays, nobody else is affected, and no
/// message that anybody else waits for has gone. The channel is closed if it was the last one, and
/// is then empty.
pub proof fn law_leaving_takes_from_nobody<T, S: Scale<T>>(
    pre: WeightedChannel<T, S>,
    pos: nat,
)
    requires
        pre.valid(),
        pre.receivers.contains(pos),
    ensures
        ({
            let post = pre.receiver_leaves(pos);
            &&& post.sent == pre.sent
            &&& post.receivers == pre.receivers.remove(pos)
            &&& post.senders == pre.senders
            &&& pre.head <= post.head <= pre.tail()
            &&& forall|q: nat|
                pre.head <= q < pre.tail() && #[trigger] post.waiting(q) > 0 ==> post.head <= q
            &&& post.closed == (pre.closed || pre.receivers.len() == 1)
            &&& pre.receivers.len() == 1 ==> post.queue().len() == 0
        }),
{
    lemma_leaving(pre, pos, pre.steps_to_tail(pos));
    let post = pre.receiver_leaves(pos);
    if pre.receivers.len() == 1 {
        lemma_reading_out_coherent(pre, pos, pre.steps_to_tail(pos));
        assert forall|p: nat| !(#[trigger] post.receivers.contains(p)) by {
            assert(post.receivers.count(p) <= post.receivers.len());
        }
        law_all_read_frees_all_space(post);
    }
}

proof fn lemma_leaving<T, S: Scale<T>>(pre: WeightedChannel<T, S>, pos: nat, steps: nat)
    requires
        pre.coherent(),
        pre.closed || pre.senders > 0,
        pre.receivers.contains(pos),
    ensures
        ({
            let post = pre.reading_out(pos, steps);
            &&& post.sent == pre.sent
            &&& post.receivers == pre.receivers.remove(pos)
            &&& post.senders == pre.senders
            &&& pre.head <= post.head <= pre.tail()
            &&& forall|q: nat|
                pre.head <= q < pre.tail() && #[trigger] post.waiting(q) > 0 ==> post.head <= q
            &&& post.closed == (pre.closed || pre.receivers.len() == 1)
        }),
    decreases steps,
{
    let post = pre.reading_out(pos, steps);
    if steps > 0 {
        let mid = pre.after_read(pos);
        lemma_read_keeps(pre, pos);
        lemma_moved_len(pre.receivers, pos, pre.next(pos));
        lemma_leaving(mid, pre.next(pos), (steps - 1) as nat);
        assert forall|q: nat| pre.head <= q < pre.tail() && #[trigger] post.waiting(
            q,
        ) > 0 implies post.head <= q by {
            if q < mid.head {
                // The oldest message went because nobody else was waiting for it.
                assert(q == pre.head == pos);
                lemma_behind_remove(pre.receivers, pos, q);
            }
        }
    }
}

proof fn lemma_reading_out_coherent<T, S: Scale<T>>(
    pre: WeightedChannel<T, S>,
    pos: nat,
    steps: nat,
)
    requires
        pre.coherent(),
        pre.receivers.contains(pos),
        steps == pre.steps_to_tail(pos),
    ensures
        pre.reading_out(pos, steps).coherent(),
    decreases steps,
{
    let post = pre.reading_out(pos, steps);
    if steps == 0 {
        lemma_behind_remove(pre.receivers, pos, pre.head);
        assert forall|p: nat| #[trigger] post.receivers.contains(p) implies p <= post.tail() by {
            assert(pre.receivers.contains(p));
        }
        assert(post.queue() =~= pre.queue());
    } else {
        lemma_read_keeps(pre, pos);
        lemma_reading_out_coherent(pre.after_read(pos), pre.next(pos), (steps - 1) as nat);
    }
}

/// A closed channel takes no more messages, and hands each one back, but what it still holds can
/// be received; only then is the end reported.
pub proof fn law_closed_channel_drains<T, S: Scale<T>>(
    pre: WeightedChannel<T, S>,
    msg: T,
    pos: nat,
)
    requires
        pre.closed,
    ensures
        pre.after_send(msg) == pre,
        pre.send_result(msg) == Err::<(), _>(TrySendError::<T>::Closed(msg)),
        pre.head <= pos < pre.tail() ==> pre.reads(pos) == Ok::<T, TryRecvError>(
            pre.sent[pos as int],
        ),
        pre.head <= pos && pos >= pre.tail() ==> pre.reads(pos) == Err::<T, _>(
            TryRecvError::Closed,
        ),
{
}

/// Closing a channel takes no message away from anybody; it only turns the report that there is
/// nothing yet into the report that there will be nothing any more.
pub proof fn law_closing_keeps_messages<T, S: Scale<T>>(pre: WeightedChannel<T, S>, pos: nat)
    ensures
        pre.closing().closed,
        pre.closing().queue() == pre.queue(),
        pre.closing().space == pre.space,
        pre.closing().reads(pos) == (match pre.reads(pos) {
            Err(TryRecvError::Empty) => Err(TryRecvError::Closed),
            other => other,
        }),
{
}

/// The channel closes with its last sender, and not before.
pub proof fn law_last_sender_closes<T, S: Scale<T>>(pre: WeightedChannel<T, S>)
    requires
        pre.valid(),
        pre.senders > 0,
    ensures
        pre.sender_leaves().closed == (pre.closed || pre.senders == 1),
        pre.sender_leaves().queue() == pre.queue(),
{
}

/// A receiver that joins gets nothing that was sent before; neither it nor a sender that joins
/// opens a closed channel, and whoever joins and goes again leaves no trace.
pub proof fn law_joining_and_leaving_cancel<T, S: Scale<T>>(pre: WeightedChannel<T, S>)
    requires
        pre.valid(),
    ensures
        pre.receiver_joins().reads(pre.tail()) is Err,
        pre.receiver_joins().closed == pre.closed,
        pre.sender_joins().closed == pre.closed,
        pre.sender_joins().sender_leaves() == pre,
        pre.receiver_joins().receiver_leaves(pre.tail()) == pre,
{
    assert(pre.receivers.insert(pre.tail()).remove(pre.tail()) =~= pre.receivers);
    assert(pre.receiver_joins().steps_to_tail(pre.tail()) == 0);
    assert(pre.receiver_joins().receiver_leaves(pre.tail()) =~= pre);
}

/// Everybody who waits to receive has been woken between `pre` and `post` if there is a reason: a
/// message was sent, or the channel was closed.
pub open spec fn receivers_woken<T, S: Scale<T>>(
    pre: WeightedChannel<T, S>,
    post: WeightedChannel<T, S>,
) -> bool {
    &&& pre.recv_ops.is_prefix_of(post.recv_ops)
    &&& post.tail() > pre.tail() || (post.closed && !pre.closed) ==> exists|i: int|
        pre.recv_ops.len() <= i < post.recv_ops.len() && #[trigger] post.recv_ops[i]
            == Signal::Notify(usize::MAX)
}

/// Nobody waits in vain for a message, or for the end: every operation that sends a message or
/// closes the channel also wakes all those who have started to listen before it.
pub proof fn law_waiting_receivers_are_woken<T, S: Scale<T>>(
    pre: WeightedChannel<T, S>,
    post: WeightedChannel<T, S>,
)
    requires
        pre.coherent(),
        operates(pre, post),
    ensures
        receivers_woken(pre, post),
{
    if exists|pos: nat| #[trigger]
        pre.receivers.contains(pos) && post == pre.receiver_leaves(pos) {
        let pos = choose|pos: nat| #[trigger]
            pre.receivers.contains(pos) && post == pre.receiver_leaves(pos);
        lemma_reading_out_wakes(pre, pos, pre.steps_to_tail(pos));
    } else if post.recv_ops != pre.recv_ops {
        assert(post.recv_ops[pre.recv_ops.len() as int] == post.recv_ops.last());
    }
}

proof fn lemma_reading_out_wakes<T, S: Scale<T>>(
    pre: WeightedChannel<T, S>,
    pos: nat,
    steps: nat,
)
    ensures
        pre.reading_out(pos, steps).tail() == pre.tail(),
        pre.reading_out(pos, steps).recv_ops == if pre.reading_out(pos, steps).closed
            == pre.closed {
            pre.recv_ops
        } else {
            pre.recv_ops.push(Signal::Notify(usize::MAX))
        },
        receivers_woken(pre, pre.reading_out(pos, steps)),
    decreases steps,
{
    let post = pre.reading_out(pos, steps);
    if steps > 0 {
        lemma_reading_out_wakes(pre.after_read(pos), pre.next(pos), (steps - 1) as nat);
    }
    if post.closed && !pre.closed {
        assert(post.recv_ops[pre.recv_ops.len() as int] == Signal::Notify(usize::MAX));
    }
}

/// Those who wait to send have been woken between `pre` and `post` if there is a reason: at least
/// one of them if a message left the channel, and all of them if the channel was closed.
pub open spec fn senders_woken<T, S: Scale<T>>(
    pre: WeightedChannel<T, S>,
    post: WeightedChannel<T, S>,
) -> bool {
    &&& pre.send_ops.is_prefix_of(post.send_ops)
    &&& post.head > pre.head ==> exists|i: int|
        pre.send_ops.len() <= i < post.send_ops.len() && (#[trigger] post.send_ops[i] matches
            Signal::Notify(n) && n >= 1)
    &&& post.closed && !pre.closed ==> exists|i: int|
        pre.send_ops.len() <= i < post.send_ops.len() && #[trigger] post.send_ops[i]
            == Signal::Notify(usize::MAX)
}

/// Without overflow mode, nobody waits in vain for room, or for the end: every operation by which
/// a message leaves the channel also wakes at least one of those who have started to listen before
/// it, and every operation which closes the channel wakes all of them.
pub proof fn law_waiting_senders_are_woken<T, S: Scale<T>>(
    pre: WeightedChannel<T, S>,
    post: WeightedChannel<T, S>,
)
    requires
        pre.coherent(),
        !pre.overflow,
        operates(pre, post),
    ensures
        senders_woken(pre, post),
{
    if exists|pos: nat| #[trigger]
        pre.receivers.contains(pos) && post == pre.receiver_leaves(pos) {
        let pos = choose|pos: nat| #[trigger]
            pre.receivers.contains(pos) && post == pre.receiver_leaves(pos);
        lemma_reading_out_wakes_sender(pre, pos, pre.steps_to_tail(pos));
    } else if post.send_ops != pre.send_ops {
        assert(post.send_ops[pre.send_ops.len() as int] == post.send_ops.last());
    }
}

proof fn lemma_reading_out_wakes_sender<T, S: Scale<T>>(
    pre: WeightedChannel<T, S>,
    pos: nat,
    steps: nat,
)
    ensures
        senders_woken(pre, pre.reading_out(pos, steps)),
    decreases steps,
{
    let post = pre.reading_out(pos, steps);
    if steps > 0 {
        let mid = pre.after_read(pos);
        lemma_reading_out_wakes_sender(mid, pre.next(pos), (steps - 1) as nat);
        if mid.head > pre.head {
            let i = pre.send_ops.len() as int;
            assert(mid.send_ops[i] == Signal::Notify(1));
            assert(post.send_ops[i] == mid.send_ops[i]);
        }
    } else if post.closed && !pre.closed {
        assert(post.send_ops[pre.send_ops.len() as int] == Signal::Notify(usize::MAX));
    }
}

/// Nobody waits to receive in vain at any time: whoever has started to listen by the moment `i` is
/// woken by the moment `j` if there is a reason.
pub proof fn law_receivers_woken_at_any_time<T, S: Scale<T>>(
    states: Seq<WeightedChannel<T, S>>,
    i: int,
    j: int,
)
    requires
        history(states),
        0 <= i <= j < states.len(),
    ensures
        receivers_woken(states[i], states[j]),
    decreases j - i,
{
    if i < j {
        let a = states[i];
        let b = states[j - 1];
        let c = states[j];
        law_receivers_woken_at_any_time(states, i, j - 1);
        law_history_stays_valid(states, i, j - 1);
        assert(changes(b, c));
        if operates(b, c) {
            law_waiting_receivers_are_woken(b, c);
        }
        if b.tail() > a.tail() || (b.closed && !a.closed) {
            let k = choose|k: int|
                a.recv_ops.len() <= k < b.recv_ops.len() && #[trigger] b.recv_ops[k]
                    == Signal::Notify(usize::MAX);
            assert(c.recv_ops[k] == b.recv_ops[k]);
        }
    }
}

/// The counts of a channel fit the machine.
pub open spec fn fits<T, S: Scale<T>>(channel: WeightedChannel<T, S>) -> bool {
    &&& channel.tail() <= u64::MAX
    &&& channel.tail() - channel.head <= usize::MAX
    &&& channel.receivers.len() <= usize::MAX
    &&& channel.senders <= usize::MAX
}

/// `post` is what one operation makes of `pre`. Space may be added as long as all of it, free and
/// in use, is an amount that there is.
pub open spec fn changes<T, S: Scale<T>>(
    pre: WeightedChannel<T, S>,
    post: WeightedChannel<T, S>,
) -> bool {
    ||| operates(pre, post)
    ||| exists|space: nat|
        post == #[trigger] pre.with_space(space) && space + pre.load() <= S::Weight::limit()
}

/// Whatever is done to a channel, it stays coherent, and closed once nobody attends to it, as long
/// as its counts fit the machine.
pub proof fn law_changes_keep_validity<T, S: Scale<T>>(
    pre: WeightedChannel<T, S>,
    post: WeightedChannel<T, S>,
)
    requires
        pre.valid(),
        changes(pre, post),
        fits(post),
    ensures
        post.valid(),
        later(pre, post),
{
    if operates(pre, post) {
        law_operations_conserve_space(pre, post);
        if exists|pos: nat| #[trigger] pre.receivers.contains(pos) && post == pre.after_read(pos) {
            let pos = choose|pos: nat| #[trigger]
                pre.receivers.contains(pos) && post == pre.after_read(pos);
            lemma_read_keeps(pre, pos);
            lemma_moved_len(pre.receivers, pos, pre.next(pos));
        } else if exists|pos: nat| #[trigger]
            pre.receivers.contains(pos) && post == pre.receiver_leaves(pos) {
            let pos = choose|pos: nat| #[trigger]
                pre.receivers.contains(pos) && post == pre.receiver_leaves(pos);
            lemma_reading_out_coherent(pre, pos, pre.steps_to_tail(pos));
            law_leaving_takes_from_nobody(pre, pos);
        } else if exists|msg: T| post == #[trigger] pre.after_send(msg) {
            let msg = choose|msg: T| post == #[trigger] pre.after_send(msg);
            lemma_making_room(pre, msg);
            lemma_behind_monotone(pre.receivers, pre.head, post.head);
            lemma_behind_all(pre.receivers, pre.tail());
        } else {
            lemma_behind_insert(pre.receivers, pre.tail(), pre.head);
            assert forall|p: nat| #[trigger] post.receivers.contains(p) implies p
                <= post.tail() by {
                assert(p == pre.tail() || pre.receivers.contains(p));
            }
        }
    } else {
        assert(post.queue() =~= pre.queue());
    }
}

/// The states that a channel goes through, one operation after the other.
pub open spec fn history<T, S: Scale<T>>(states: Seq<WeightedChannel<T, S>>) -> bool {
    &&& states.len() > 0
    &&& states[0].valid()
    &&& forall|i: int| 0 <= i < states.len() ==> fits(#[trigger] states[i])
    &&& forall|i: int, j: int|
        0 <= i && j == i + 1 && j < states.len() ==> changes(
            #[trigger] states[i],
            #[trigger] states[j],
        )
}

/// A channel is valid at all times, and what was sent before stays as it was at all times.
pub proof fn law_history_stays_valid<T, S: Scale<T>>(
    states: Seq<WeightedChannel<T, S>>,
    i: int,
    j: int,
)
    requires
        history(states),
        0 <= i <= j < states.len(),
    ensures
        states[j].valid(),
        later(states[i], states[j]),
    decreases j,
{
    if j > 0 {
        let before = if i < j {
            i
        } else {
            j - 1
        };
        law_history_stays_valid(states, before, j - 1);
        law_changes_keep_validity(states[j - 1], states[j]);
        if i < j {
            law_later_transitive(states[i], states[j - 1], states[j]);
        }
    }
}

/// There is a reason for the channel to be closed at the moment `k`: it has just been closed, or
/// there is no sender, or no receiver.
pub open spec fn closes_at<T, S: Scale<T>>(states: Seq<WeightedChannel<T, S>>, k: int) -> bool {
    ||| k > 0 && states[k] == states[k - 1].closing()
    ||| states[k].senders == 0
    ||| states[k].receivers.len() == 0
}

/// A channel that was open is closed exactly if there was a reason at some moment: somebody closed
/// it, or all senders were gone, or all receivers were gone.
pub proof fn law_closed_exactly_with_reason<T, S: Scale<T>>(states: Seq<WeightedChannel<T, S>>)
    requires
        history(states),
        !states[0].closed,
    ensures
        states.last().closed <==> exists|k: int|
            0 <= k < states.len() && #[trigger] closes_at(states, k),
{
    if exists|k: int| 0 <= k < states.len() && #[trigger] closes_at(states, k) {
        let k = choose|k: int| 0 <= k < states.len() && #[trigger] closes_at(states, k);
        law_history_stays_valid(states, k, states.len() - 1);
        law_history_stays_valid(states, k, k);
    }
    if states.last().closed {
        lemma_closed_for_a_reason(states, states.len() - 1);
    }
}

proof fn lemma_closed_for_a_reason<T, S: Scale<T>>(states: Seq<WeightedChannel<T, S>>, n: int)
    requires
        history(states),
        !states[0].closed,
        0 <= n < states.len(),
        states[n].closed,
    ensures
        exists|k: int| 0 <= k <= n && #[trigger] closes_at(states, k),
    decreases n,
{
    let pre = states[n - 1];
    let post = states[n];
    if pre.closed {
        lemma_closed_for_a_reason(states, n - 1);
    } else {
        law_history_stays_valid(states, n - 1, n - 1);
        assert(changes(pre, post));
        if exists|pos: nat| #[trigger]
            pre.receivers.contains(pos) && post == pre.receiver_leaves(pos) {
            let pos = choose|pos: nat| #[trigger]
                pre.receivers.contains(pos) && post == pre.receiver_leaves(pos);
            law_leaving_takes_from_nobody(pre, pos);
        }
        assert(closes_at(states, n));
    }
}

/// What an attempt to receive at `pos` answers, and what becomes of the channel.
///
/// A receiver that is before the head is told how many messages it missed, and goes to the head.
/// One that is in the log gets the message there, and goes on by one. One that is at the end is
/// told that the channel is closed if it is, and that it is empty otherwise, and stays; nothing
/// changes then. The message leaves the channel exactly if nobody else still has to read it; then,
/// and only then, its weight becomes space, and one waiting sender is woken.
pub proof fn law_receive_in_full<T, S: Scale<T>>(pre: WeightedChannel<T, S>, pos: nat)
    requires
        pre.coherent(),
        pre.receivers.contains(pos),
    ensures
        pos < pre.head ==> {
            &&& pre.reads(pos) matches Err(TryRecvError::Overflowed(n)) && n == pre.head - pos
            &&& pre.next(pos) == pre.head
        },
        pre.head <= pos < pre.sent.len() ==> {
            &&& pre.reads(pos) == Ok::<T, TryRecvError>(pre.sent[pos as int])
            &&& pre.next(pos) == pos + 1
        },
        pre.head <= pos && pos >= pre.sent.len() ==> {
            &&& pre.closed ==> pre.reads(pos) == Err::<T, _>(TryRecvError::Closed)
            &&& !pre.closed ==> pre.reads(pos) == Err::<T, _>(TryRecvError::Empty)
            &&& pre.next(pos) == pos
            &&& pre.after_read(pos) == pre
        },
        ({
            let last = pos == pre.head && pos < pre.sent.len() && forall|p: nat| #[trigger]
                pre.receivers.remove(pos).contains(p) ==> p > pos;
            &&& last == pre.releases(pos)
            &&& pre.after_read(pos) == WeightedChannel {
                head: if last {
                    pre.head + 1
                } else {
                    pre.head
                },
                space: if last {
                    pre.space + pre.scale.weight(&pre.sent[pos as int])
                } else {
                    pre.space
                },
                receivers: pre.receivers.remove(pos).insert(pre.next(pos)),
                send_ops: if last {
                    pre.send_ops.push(Signal::Notify(1))
                } else {
                    pre.send_ops
                },
                ..pre
            }
        }),
{
    lemma_moved_len(pre.receivers, pos, pre.next(pos));
    lemma_behind_remove(pre.receivers, pos, pos);
    lemma_behind_witness(pre.receivers.remove(pos), pos);
    if pre.head <= pos && pos >= pre.sent.len() {
        assert(pre.receivers.remove(pos).insert(pos) =~= pre.receivers);
        assert(pre.after_read(pos) =~= pre);
    }
}

/// What an attempt to send answers, and what becomes of the channel.
///
/// A closed channel hands the message back and stays as it is. Without overflow mode a message is
/// taken exactly if it fits into the space that is left, and nothing changes otherwise. In overflow
/// mode it is taken exactly if it fits into all the space, free and in use, and the oldest messages
/// go until it fits, and no longer; otherwise all of them go. A message that is taken is added to
/// the log, and wakes one who waits to send and everybody who waits to receive.
pub proof fn law_send_in_full<T, S: Scale<T>>(pre: WeightedChannel<T, S>, msg: T)
    requires
        pre.coherent(),
    ensures
        ({
            let need = pre.scale.weight(&msg);
            let post = pre.after_send(msg);
            let freed = total_weight(
                pre.scale,
                pre.sent.subrange(pre.head as int, post.head as int),
            );
            &&& pre.closed ==> {
                &&& post == pre
                &&& pre.send_result(msg) == Err::<(), _>(TrySendError::<T>::Closed(msg))
            }
            &&& !pre.closed ==> {
                &&& pre.head <= post.head <= pre.sent.len()
                &&& !pre.overflow ==> post.head == pre.head
                &&& need <= pre.space ==> post.head == pre.head
                &&& pre.send_result(msg) is Ok <==> need <= pre.space || (pre.overflow && need
                    <= pre.space + total_weight(pre.scale, pre.sent.skip(pre.head as int)))
                &&& match pre.send_result(msg) {
                    Ok(_) => post == WeightedChannel {
                        sent: pre.sent.push(msg),
                        head: post.head,
                        space: (pre.space + freed - need) as nat,
                        send_ops: pre.send_ops.push(Signal::Notify(1)),
                        recv_ops: pre.recv_ops.push(Signal::Notify(usize::MAX)),
                        ..pre
                    } && need <= pre.space + freed,
                    Err(error) => {
                        &&& error == TrySendError::<T>::Full { msg, error: FullError }
                        &&& post == WeightedChannel {
                            head: if pre.overflow {
                                pre.sent.len()
                            } else {
                                pre.head
                            },
                            space: pre.space + freed,
                            ..pre
                        }
                    },
                }
                &&& forall|n: int|
                    pre.head <= n < post.head ==> pre.space + total_weight(
                        pre.scale,
                        #[trigger] pre.sent.subrange(pre.head as int, n),
                    ) < need
            }
        }),
{
    if !pre.closed {
        let need = pre.scale.weight(&msg);
        let post = pre.after_send(msg);
        let n = pre.evicts(msg) as int;
        let queue = pre.queue();
        lemma_making_room(pre, msg);
        lemma_evictions_stop(pre.scale, queue, pre.space, need);
        assert(pre.sent.subrange(pre.head as int, pre.head + n) =~= queue.take(n));
        assert(queue.take(0) =~= Seq::<T>::empty());
        if n == queue.len() {
            assert(queue.take(n) =~= queue);
        }
        lemma_total_weight_split(pre.scale, queue, n);
        assert forall|k: int| pre.head <= k < post.head implies pre.space + total_weight(
            pre.scale,
            #[trigger] pre.sent.subrange(pre.head as int, k),
        ) < need by {
            assert(pre.sent.subrange(pre.head as int, k) =~= queue.take(k - pre.head));
        }
        if n == 0 {
            assert(pre.sent.subrange(pre.head as int, pre.head as int) =~= Seq::<T>::empty());
        }
    }
}

/// What a receiver that goes makes of the channel.
///
/// It is no longer counted. The messages that nobody else has to read go, and no others; their
/// weight becomes space, and one waiting sender is woken for each of them. An open channel becomes
/// closed exactly if no receiver is left, and then everybody is woken. Nothing else changes.
pub proof fn law_leaving_in_full<T, S: Scale<T>>(pre: WeightedChannel<T, S>, pos: nat)
    requires
        pre.valid(),
        pre.receivers.contains(pos),
    ensures
        ({
            let post = pre.receiver_leaves(pos);
            let rest = pre.receivers.remove(pos);
            let gone = (post.head - pre.head) as nat;
            let told = pre.send_ops + Seq::new(gone, |i: int| Signal::Notify(1));
            let closing = !pre.closed && pre.receivers.len() == 1;
            &&& pre.head <= post.head <= pre.sent.len()
            &&& forall|p: nat| #[trigger]
                rest.contains(p) ==> post.head <= p || post.head == pre.head
            &&& post.head < pre.sent.len() ==> exists|p: nat| #[trigger]
                rest.contains(p) && p <= post.head
            &&& post == WeightedChannel {
                head: post.head,
                space: pre.space + total_weight(
                    pre.scale,
                    pre.sent.subrange(pre.head as int, post.head as int),
                ),
                receivers: rest,
                closed: pre.closed || closing,
                send_ops: if closing {
                    told.push(Signal::Notify(usize::MAX))
                } else {
                    told
                },
                recv_ops: if closing {
                    pre.recv_ops.push(Signal::Notify(usize::MAX))
                } else {
                    pre.recv_ops
                },
                ..pre
            }
        }),
{
    let steps = pre.steps_to_tail(pos);
    let post = pre.receiver_leaves(pos);
    law_leaving_takes_from_nobody(pre, pos);
    lemma_reading_out_keeps(pre, pos, steps);
    lemma_reading_out_coherent(pre, pos, steps);
    lemma_reading_out_signals(pre, pos, steps);
    let n = post.head - pre.head;
    lemma_total_weight_split(pre.scale, pre.queue(), n);
    assert(pre.queue().take(n) =~= pre.sent.subrange(pre.head as int, post.head as int));
    assert(pre.queue().skip(n) =~= post.queue());
    lemma_behind_witness(post.receivers, post.head);
    assert forall|p: nat| #[trigger] pre.receivers.remove(pos).contains(p) implies post.head <= p
        || post.head == pre.head by {
        let q = if p < pre.head {
            pre.head
        } else {
            p
        };
        lemma_behind_witness(post.receivers, q);
        assert(post.waiting(q) > 0);
    }
}

/// Whom a receiver that goes has woken, and what it leaves alone.
proof fn lemma_reading_out_signals<T, S: Scale<T>>(
    pre: WeightedChannel<T, S>,
    pos: nat,
    steps: nat,
)
    ensures
        ({
            let post = pre.reading_out(pos, steps);
            let gone = (post.head - pre.head) as nat;
            let told = pre.send_ops + Seq::new(gone, |i: int| Signal::Notify(1));
            &&& pre.head <= post.head
            &&& post.overflow == pre.overflow
            &&& if post.closed && !pre.closed {
                &&& post.send_ops == told.push(Signal::Notify(usize::MAX))
                &&& post.recv_ops == pre.recv_ops.push(Signal::Notify(usize::MAX))
            } else {
                &&& post.send_ops == told
                &&& post.recv_ops == pre.recv_ops
            }
        }),
    decreases steps,
{
    let post = pre.reading_out(pos, steps);
    if steps > 0 {
        let mid = pre.after_read(pos);
        lemma_reading_out_signals(mid, pre.next(pos), (steps - 1) as nat);
        let gone = (post.head - pre.head) as nat;
        let rest = (post.head - mid.head) as nat;
        assert(mid.send_ops + Seq::new(rest, |i: int| Signal::Notify(1)) =~= pre.send_ops
            + Seq::new(gone, |i: int| Signal::Notify(1)));
    } else {
        let gone = (post.head - pre.head) as nat;
        assert(pre.send_ops + Seq::new(gone, |i: int| Signal::Notify(1)) =~= pre.send_ops);
    }
}

/// What it means for a channel to be valid: no receiver is beyond the end of the log, somebody
/// still has to read the oldest message held, and an open channel has a sender and a receiver.
pub proof fn law_meaning_of_validity<T, S: Scale<T>>(channel: WeightedChannel<T, S>, p: nat)
    requires
        channel.valid(),
    ensures
        channel.head <= channel.sent.len(),
        channel.queue().len() == channel.sent.len() - channel.head,
        channel.receivers.contains(p) ==> p <= channel.sent.len(),
        channel.head < channel.sent.len() ==> exists|q: nat|
            #[trigger] channel.receivers.contains(q) && q <= channel.head,
        !channel.closed ==> channel.senders > 0 && channel.receivers.len() > 0,
        channel.space + channel.load() <= S::Weight::limit(),
{
    lemma_behind_witness(channel.receivers, channel.head);
}

/// The weight of messages together is the sum of their weights: nothing weighs nothing, one
/// message weighs what it weighs, and two parts weigh what they weigh each.
pub proof fn law_weights_add_up<T, S: Scale<T>>(scale: S, item: T, a: Seq<T>, b: Seq<T>)
    ensures
        total_weight(scale, Seq::<T>::empty()) == 0,
        total_weight(scale, Seq::<T>::empty().push(item)) == scale.weight(&item),
        total_weight(scale, a + b) == total_weight(scale, a) + total_weight(scale, b),
{
    lemma_total_weight_push(scale, Seq::<T>::empty(), item);
    lemma_total_weight_split(scale, a + b, a.len() as int);
    assert((a + b).take(a.len() as int) =~= a);
    assert((a + b).skip(a.len() as int) =~= b);
}

/// Space that is added can be taken away again, and only changes the space.
pub proof fn law_added_space_can_be_removed<T, S: Scale<T>>(
    pre: WeightedChannel<T, S>,
    amount: nat,
)
    requires
        pre.coherent(),
    ensures
        pre.with_space(pre.space + amount).space >= amount,
        pre.with_space(pre.space + amount).with_space(pre.space) == pre,
        pre.with_space(pre.space + amount).load() == pre.load(),
{
    assert(pre.with_space(pre.space + amount).queue() =~= pre.queue());
}

} // verus!
