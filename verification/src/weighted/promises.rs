//! What the operations of a weighted channel promise to their callers, stated of the calls
//! themselves.
use crate::errors::{FullError, RecvError, SendError, TryRecvError, TrySendError};
use crate::signal::Signal;
use crate::step::Step;
use crate::weighted::channel::{total_weight, WeightedChannel};
use crate::weighted::handles::{Receiver, Recv, Send, Sender};
use crate::weighted::inner::Inner;
use crate::weighted::laws::{law_leaving_in_full, law_receive_in_full, law_send_in_full};
use crate::weighted::scale::{BoxlikeScale, Scale, Weight};
use std::rc::Rc;
use std::sync::Arc;
use vstd::layout::{size_of, spec_size_of_val};
use vstd::multiset::Multiset;
use vstd::prelude::*;

verus! {

/// A new channel is open and empty, without overflow mode, with all of its capacity as space, one
/// sender, and one receiver that waits for the first message.
pub proof fn law_new_channel<T, S: Scale<T>>(
    scale: S,
    capacity: S::Weight,
    created: (Inner<T, S>, Sender<T, S>, Receiver<T, S>),
)
    requires
        call_ensures(
            crate::weighted::handles::weighted_broadcaster::<T, S>,
            (scale, capacity),
            created,
        ),
    ensures
        created.0.wf(),
        created.0@.scale == scale,
        created.0@.sent.len() == 0,
        created.0@.head == 0,
        created.0@.space == capacity.amount(),
        created.0@.receivers =~= Multiset::<nat>::empty().insert(0),
        created.0@.senders == 1,
        !created.0@.overflow,
        !created.0@.closed,
        created.0@.send_ops.len() == 0,
        created.0@.recv_ops.len() == 0,
        created.2.pos() == 0,
{
}

/// What is told of a channel is so.
pub proof fn law_state_is_told<T, S: Scale<T>>(
    sender: Sender<T, S>,
    receiver: Receiver<T, S>,
    inner: Inner<T, S>,
    by_sender: bool,
    by_receiver: bool,
    space: S::Weight,
    sent: u64,
    receivers: usize,
    senders: usize,
    weight: S::Weight,
    room: bool,
)
    requires
        inner.wf(),
        call_ensures(Sender::<T, S>::overflow, (&sender, &inner), by_sender),
        call_ensures(Receiver::<T, S>::overflow, (&receiver, &inner), by_receiver),
        call_ensures(Sender::<T, S>::space, (&sender, &inner), space),
        call_ensures(Inner::<T, S>::sent_count, (&inner,), sent),
        call_ensures(Inner::<T, S>::receiver_count, (&inner,), receivers),
        call_ensures(Inner::<T, S>::sender_count, (&inner,), senders),
        call_ensures(Inner::<T, S>::can_add_space, (&inner, &weight), room),
    ensures
        by_sender == inner@.overflow,
        by_receiver == inner@.overflow,
        space.amount() == inner@.space,
        sent == inner@.sent.len(),
        receivers == inner@.receivers.len(),
        senders == inner@.senders,
        room <==> inner@.space + total_weight(
            inner@.scale,
            inner@.sent.skip(inner@.head as int),
        ) + weight.amount() <= S::Weight::limit(),
{
}

/// Overflow mode is what it was last set to, and setting it changes nothing else.
pub proof fn law_sender_sets_overflow<T, S: Scale<T>>(
    sender: Sender<T, S>,
    inner: &mut Inner<T, S>,
    overflow: bool,
    told: bool,
)
    requires
        old(inner).wf(),
        call_ensures(Sender::<T, S>::set_overflow, (&sender, inner, overflow), ()),
        call_ensures(Sender::<T, S>::overflow, (&sender, &*final(inner)), told),
    ensures
        final(inner).wf(),
        told == overflow,
        final(inner)@ == (WeightedChannel { overflow, ..old(inner)@ }),
{
}

/// Closing a channel makes it closed and wakes everybody who waits. Nothing is taken from anybody.
pub proof fn law_sender_closes<T, S: Scale<T>>(sender: Sender<T, S>, inner: &mut Inner<T, S>)
    requires
        old(inner).wf(),
        call_ensures(Sender::<T, S>::close, (&sender, inner), ()),
    ensures
        final(inner).wf(),
        final(inner)@ == (WeightedChannel {
            closed: true,
            send_ops: old(inner)@.send_ops.push(Signal::Notify(usize::MAX)),
            recv_ops: old(inner)@.recv_ops.push(Signal::Notify(usize::MAX)),
            ..old(inner)@
        }),
{
}

/// A new sender is one more sender, and a new receiver is one more receiver, which gets only what
/// is sent from then on. Nothing else changes, and a closed channel stays closed.
pub proof fn law_sender_makes_handles<T, S: Scale<T>>(
    sender: Sender<T, S>,
    a: &mut Inner<T, S>,
    new_sender: Sender<T, S>,
    b: &mut Inner<T, S>,
    new_receiver: Receiver<T, S>,
)
    requires
        old(a).wf(),
        old(a)@.senders < usize::MAX,
        call_ensures(Sender::<T, S>::new_sender, (&sender, a), new_sender),
        old(b).wf(),
        old(b)@.receivers.len() < usize::MAX,
        call_ensures(Sender::<T, S>::new_receiver, (&sender, b), new_receiver),
    ensures
        final(a).wf(),
        final(a)@ == (WeightedChannel { senders: old(a)@.senders + 1, ..old(a)@ }),
        final(b).wf(),
        new_receiver.pos() == old(b)@.sent.len(),
        final(b)@ == (WeightedChannel {
            receivers: old(b)@.receivers.insert(new_receiver.pos()),
            ..old(b)@
        }),
{
}

/// Overflow mode is what it was last set to, and setting it changes nothing else.
pub proof fn law_receiver_sets_overflow<T, S: Scale<T>>(
    receiver: Receiver<T, S>,
    inner: &mut Inner<T, S>,
    overflow: bool,
    told: bool,
)
    requires
        old(inner).wf(),
        call_ensures(Receiver::<T, S>::set_overflow, (&receiver, inner, overflow), ()),
        call_ensures(Receiver::<T, S>::overflow, (&receiver, &*final(inner)), told),
    ensures
        final(inner).wf(),
        told == overflow,
        final(inner)@ == (WeightedChannel { overflow, ..old(inner)@ }),
{
}

/// Closing a channel makes it closed and wakes everybody who waits. Nothing is taken from anybody.
pub proof fn law_receiver_closes<T, S: Scale<T>>(receiver: Receiver<T, S>, inner: &mut Inner<T, S>)
    requires
        old(inner).wf(),
        call_ensures(Receiver::<T, S>::close, (&receiver, inner), ()),
    ensures
        final(inner).wf(),
        final(inner)@ == (WeightedChannel {
            closed: true,
            send_ops: old(inner)@.send_ops.push(Signal::Notify(usize::MAX)),
            recv_ops: old(inner)@.recv_ops.push(Signal::Notify(usize::MAX)),
            ..old(inner)@
        }),
{
}

/// A new sender is one more sender, and a new receiver is one more receiver, which gets only what
/// is sent from then on. Nothing else changes, and a closed channel stays closed.
pub proof fn law_receiver_makes_handles<T, S: Scale<T>>(
    receiver: Receiver<T, S>,
    a: &mut Inner<T, S>,
    new_sender: Sender<T, S>,
    b: &mut Inner<T, S>,
    new_receiver: Receiver<T, S>,
)
    requires
        old(a).wf(),
        old(a)@.senders < usize::MAX,
        call_ensures(Receiver::<T, S>::new_sender, (&receiver, a), new_sender),
        old(b).wf(),
        old(b)@.receivers.len() < usize::MAX,
        call_ensures(Receiver::<T, S>::new_receiver, (&receiver, b), new_receiver),
    ensures
        final(a).wf(),
        final(a)@ == (WeightedChannel { senders: old(a)@.senders + 1, ..old(a)@ }),
        final(b).wf(),
        new_receiver.pos() == old(b)@.sent.len(),
        final(b)@ == (WeightedChannel {
            receivers: old(b)@.receivers.insert(new_receiver.pos()),
            ..old(b)@
        }),
{
}

/// A sender that is cloned is one more sender, and one that is dropped is one less. The last one
/// closes an open channel and wakes everybody. Nothing else changes.
pub proof fn law_senders_come_and_go<T, S: Scale<T>>(
    sender: Sender<T, S>,
    a: &mut Inner<T, S>,
    other: Sender<T, S>,
    b: &mut Inner<T, S>,
)
    requires
        old(a).wf(),
        old(a)@.senders < usize::MAX,
        call_ensures(Sender::<T, S>::clone, (&sender, a), other),
        old(b).wf(),
        old(b)@.senders > 0,
        call_ensures(Sender::<T, S>::drop, (sender, b), ()),
    ensures
        final(a).wf(),
        final(a)@ == (WeightedChannel { senders: old(a)@.senders + 1, ..old(a)@ }),
        final(b).wf(),
        ({
            let pre = old(b)@;
            let left = WeightedChannel { senders: (pre.senders - 1) as nat, ..pre };
            final(b)@ == if pre.senders == 1 && !pre.closed {
                WeightedChannel {
                    closed: true,
                    send_ops: pre.send_ops.push(Signal::Notify(usize::MAX)),
                    recv_ops: pre.recv_ops.push(Signal::Notify(usize::MAX)),
                    ..left
                }
            } else {
                left
            }
        }),
{
}

/// A receiver that is dropped is one less. The messages that only it still had to read go, and no
/// others; their weight becomes space, and for each of them one waiting sender is woken. The last
/// receiver closes an open channel and wakes everybody. Nothing else changes.
pub proof fn law_receiver_drops<T, S: Scale<T>>(receiver: Receiver<T, S>, inner: &mut Inner<T, S>)
    requires
        old(inner).wf(),
        old(inner)@.receivers.contains(receiver.pos()),
        call_ensures(Receiver::<T, S>::drop, (receiver, inner), ()),
    ensures
        final(inner).wf(),
        ({
            let pre = old(inner)@;
            let post = final(inner)@;
            let rest = pre.receivers.remove(receiver.pos());
            let gone = (post.head - pre.head) as nat;
            let told = pre.send_ops + Seq::new(gone, |i: int| Signal::Notify(1));
            let closing = !pre.closed && pre.receivers.len() == 1;
            &&& pre.head <= post.head <= pre.sent.len()
            &&& forall|p: nat| #[trigger]
                rest.contains(p) ==> post.head <= p || post.head == pre.head
            &&& post.head < pre.sent.len() ==> exists|p: nat| #[trigger]
                rest.contains(p) && p <= post.head
            &&& post == WeightedChannel {
                head: post.head,
                space: pre.space + total_weight(
                    pre.scale,
                    pre.sent.subrange(pre.head as int, post.head as int),
                ),
                receivers: rest,
                closed: pre.closed || closing,
                send_ops: if closing {
                    told.push(Signal::Notify(usize::MAX))
                } else {
                    told
                },
                recv_ops: if closing {
                    pre.recv_ops.push(Signal::Notify(usize::MAX))
                } else {
                    pre.recv_ops
                },
                ..pre
            }
        }),
{
    law_leaving_in_full(old(inner)@, receiver.pos());
}

/// Space that is added is there from then on. Space is removed exactly if there is enough of it,
/// and nothing changes otherwise. Neither changes anything else.
pub proof fn law_space_changes<T, S: Scale<T>>(
    sender: Sender<T, S>,
    weight: S::Weight,
    a: &mut Inner<T, S>,
    b: &mut Inner<T, S>,
    removed: bool,
)
    requires
        old(a).wf(),
        old(a)@.space + old(a)@.load() + weight.amount() <= S::Weight::limit(),
        call_ensures(Sender::<T, S>::add_space, (&sender, a, weight), ()),
        old(b).wf(),
        call_ensures(Sender::<T, S>::remove_space, (&sender, b, weight), removed),
    ensures
        final(a).wf(),
        final(a)@ == (WeightedChannel { space: old(a)@.space + weight.amount(), ..old(a)@ }),
        final(b).wf(),
        removed <==> weight.amount() <= old(b)@.space,
        removed ==> final(b)@ == (WeightedChannel {
            space: (old(b)@.space - weight.amount()) as nat,
            ..old(b)@
        }),
        !removed ==> final(b)@ == old(b)@,
{
}

/// An attempt to send: what it answers, and what becomes of the channel.
///
/// A closed channel hands the message back. Without overflow mode a message is taken exactly if it
/// fits into the space that is left. In overflow mode it is taken exactly if it fits into all the
/// space, free and in use; the oldest messages go until it fits, and no longer, or all of them if
/// it never does. A message that is taken wakes one who waits to send and everybody who waits to
/// receive.
pub proof fn law_try_broadcast<T, S: Scale<T>>(
    sender: Sender<T, S>,
    inner: &mut Inner<T, S>,
    msg: T,
    result: Result<(), TrySendError<T>>,
)
    requires
        old(inner).wf(),
        old(inner)@.sent.len() < u64::MAX,
        call_ensures(Sender::<T, S>::try_broadcast, (&sender, inner, msg), result),
    ensures
        final(inner).wf(),
        ({
            let pre = old(inner)@;
            let post = final(inner)@;
            let need = pre.scale.weight(&msg);
            let freed = total_weight(
                pre.scale,
                pre.sent.subrange(pre.head as int, post.head as int),
            );
            &&& pre.closed ==> {
                &&& post == pre
                &&& result == Err::<(), _>(TrySendError::<T>::Closed(msg))
            }
            &&& !pre.closed ==> {
                &&& pre.head <= post.head <= pre.sent.len()
                &&& result is Ok <==> need <= pre.space || (pre.overflow && need <= pre.space
                    + total_weight(pre.scale, pre.sent.skip(pre.head as int)))
                &&& !pre.overflow || need <= pre.space ==> post.head == pre.head
                &&& result is Ok ==> post == WeightedChannel {
                    sent: pre.sent.push(msg),
                    head: post.head,
                    space: (pre.space + freed - need) as nat,
                    send_ops: pre.send_ops.push(Signal::Notify(1)),
                    recv_ops: pre.recv_ops.push(Signal::Notify(usize::MAX)),
                    ..pre
                } && need <= pre.space + freed
                &&& result matches Err(error) ==> {
                    &&& error == TrySendError::<T>::Full { msg, error: FullError }
                    &&& post == WeightedChannel {
                        head: if pre.overflow {
                            pre.sent.len()
                        } else {
                            pre.head
                        },
                        space: pre.space + freed,
                        ..pre
                    }
                }
                &&& forall|n: int|
                    pre.head <= n < post.head ==> pre.space + total_weight(
                        pre.scale,
                        #[trigger] pre.sent.subrange(pre.head as int, n),
                    ) < need
            }
        }),
{
    law_send_in_full(old(inner)@, msg);
}

/// An attempt to receive: what it answers, where the receiver is afterwards, and what becomes of
/// the channel. An open channel is never called closed.
pub proof fn law_try_recv<T: Clone, S: Scale<T>>(
    receiver: &mut Receiver<T, S>,
    inner: &mut Inner<T, S>,
    result: Result<T, TryRecvError>,
)
    requires
        old(inner).wf(),
        old(inner)@.receivers.contains(old(receiver).pos()),
        call_ensures(Receiver::<T, S>::try_recv, (receiver, inner), result),
    ensures
        final(inner).wf(),
        final(inner)@.receivers.contains(final(receiver).pos()),
        ({
            let pre = old(inner)@;
            let post = final(inner)@;
            let pos = old(receiver).pos();
            let to = final(receiver).pos();
            let last = pos == pre.head && pos < pre.sent.len() && forall|p: nat| #[trigger]
                pre.receivers.remove(pos).contains(p) ==> p > pos;
            &&& pos < pre.head ==> {
                &&& result matches Err(TryRecvError::Overflowed(n)) && n == pre.head - pos
                &&& to == pre.head
            }
            &&& pre.head <= pos < pre.sent.len() ==> {
                &&& result matches Ok(m) && (if last {
                    m == pre.sent[pos as int]
                } else {
                    cloned(pre.sent[pos as int], m)
                })
                &&& to == pos + 1
            }
            &&& pos >= pre.sent.len() ==> {
                &&& pre.closed ==> result == Err::<T, _>(TryRecvError::Closed)
                &&& !pre.closed ==> result == Err::<T, _>(TryRecvError::Empty)
                &&& to == pos
                &&& post == pre
            }
            &&& post == WeightedChannel {
                head: if last {
                    pre.head + 1
                } else {
                    pre.head
                },
                space: if last {
                    pre.space + pre.scale.weight(&pre.sent[pos as int])
                } else {
                    pre.space
                },
                receivers: pre.receivers.remove(pos).insert(to),
                send_ops: if last {
                    pre.send_ops.push(Signal::Notify(1))
                } else {
                    pre.send_ops
                },
                ..pre
            }
        }),
{
    law_receive_in_full(old(inner)@, old(receiver).pos());
}

/// A waiting send starts with its message and without a listener.
pub proof fn law_waiting_send_starts<T, S: Scale<T>>(
    sender: Sender<T, S>,
    msg: T,
    send: Send<T, S>,
)
    requires
        call_ensures(Sender::<T, S>::broadcast, (&sender, msg), send),
    ensures
        send.item() == Some(msg),
        send.waiter() is None,
{
}

/// One round of a waiting send. One that listens waits, and one that is over stays so. Otherwise it
/// makes an attempt: on a closed channel it ends with an error that holds the message, a message
/// that fits ends it, and one that does not fit is kept, and the operation starts to listen to the
/// event that those who wait to send are woken by.
pub proof fn law_waiting_send_round<T, S: Scale<T>>(
    send: &mut Send<T, S>,
    inner: &mut Inner<T, S>,
    step: Step<Result<(), SendError<T>>>,
)
    requires
        old(inner).wf(),
        old(inner)@.sent.len() < u64::MAX,
        call_ensures(Send::<T, S>::poll, (send, inner), step),
    ensures
        final(inner).wf(),
        ({
            let pre = old(inner)@;
            let post = final(inner)@;
            &&& old(send).waiter() is Some ==> {
                &&& step is Wait
                &&& final(send).waiter() == old(send).waiter()
                &&& final(send).item() == old(send).item()
                &&& post == pre
            }
            &&& old(send).waiter() is None && old(send).item() is None ==> {
                &&& step == Step::Ready(Ok::<(), SendError<T>>(()))
                &&& post == pre
            }
            &&& old(send).waiter() is None ==> (old(send).item() matches Some(msg) ==> {
                let need = pre.scale.weight(&msg);
                let fits = need <= pre.space || (pre.overflow && need <= pre.space + total_weight(
                    pre.scale,
                    pre.sent.skip(pre.head as int),
                ));
                &&& pre.closed ==> {
                    &&& step == Step::Ready(Err::<(), _>(SendError::<T>::Closed(msg)))
                    &&& final(send).item() is None
                    &&& post == pre
                }
                &&& !pre.closed && fits ==> {
                    &&& step == Step::Ready(Ok::<(), SendError<T>>(()))
                    &&& final(send).item() is None
                    &&& post.sent == pre.sent.push(msg)
                    &&& post.send_ops == pre.send_ops.push(Signal::Notify(1))
                    &&& post.recv_ops == pre.recv_ops.push(Signal::Notify(usize::MAX))
                    &&& post.receivers == pre.receivers && post.senders == pre.senders
                    &&& !pre.overflow || need <= pre.space ==> post.head == pre.head
                }
                &&& !pre.closed && !fits ==> {
                    &&& step is Wait
                    &&& final(send).item() == Some(msg)
                    &&& final(send).waiter() matches Some(l) && final(inner).send_heard_by(l)
                    &&& post.sent == pre.sent
                    &&& post.send_ops == pre.send_ops.push(Signal::Listen)
                    &&& post.recv_ops == pre.recv_ops
                    &&& !pre.overflow ==> post.head == pre.head && post.space == pre.space
                }
            })
        }),
{
    if let Some(msg) = old(send).item() {
        law_send_in_full(old(inner)@, msg);
        assert(old(inner)@.sent.subrange(old(inner)@.head as int, old(inner)@.head as int)
            =~= Seq::<T>::empty());
    }
}

/// A waiting receive starts without a listener.
pub proof fn law_waiting_receive_starts<'a, T: Clone, S: Scale<T>>(
    receiver: &'a mut Receiver<T, S>,
    recv: Recv<'a, T, S>,
)
    requires
        call_ensures(Receiver::<T, S>::recv, (receiver,), recv),
    ensures
        recv.waiter is None,
        old(recv.recv).pos() == old(receiver).pos(),
{
}

/// One round of a waiting receive. One that listens waits. Otherwise it makes an attempt, and ends
/// with a message, with the number of messages that were missed, or with the end of the channel; on
/// an open channel without anything for the receiver it does not end, and starts to listen to the
/// event that those who wait to receive are woken by.
pub proof fn law_waiting_receive_round<'a, T: Clone, S: Scale<T>>(
    recv: &mut Recv<'a, T, S>,
    inner: &mut Inner<T, S>,
    step: Step<Result<T, RecvError>>,
)
    requires
        old(inner).wf(),
        old(inner)@.receivers.contains(old(recv).recv.pos()),
        call_ensures(Recv::<T, S>::poll, (recv, inner), step),
    ensures
        final(inner).wf(),
        ({
            let pre = old(inner)@;
            let post = final(inner)@;
            let pos = old(recv).recv.pos();
            let to = final(recv).recv.pos();
            let last = pos == pre.head && pos < pre.sent.len() && forall|p: nat| #[trigger]
                pre.receivers.remove(pos).contains(p) ==> p > pos;
            &&& old(recv).waiter is Some ==> {
                &&& step is Wait
                &&& final(recv).waiter == old(recv).waiter
                &&& to == pos
                &&& post == pre
            }
            &&& old(recv).waiter is None ==> {
                &&& pos < pre.head ==> {
                    &&& step matches Step::Ready(Err(RecvError::Overflowed(n))) && n == pre.head
                        - pos
                    &&& to == pre.head
                }
                &&& pre.head <= pos < pre.sent.len() ==> {
                    &&& step matches Step::Ready(Ok(m)) && (if last {
                        m == pre.sent[pos as int]
                    } else {
                        cloned(pre.sent[pos as int], m)
                    })
                    &&& to == pos + 1
                }
                &&& pos >= pre.sent.len() && pre.closed ==> {
                    &&& step == Step::Ready(Err::<T, _>(RecvError::Closed))
                    &&& to == pos
                    &&& post == pre
                }
                &&& pos >= pre.sent.len() && !pre.closed ==> {
                    &&& step is Wait
                    &&& final(recv).waiter matches Some(l) && final(inner).recv_heard_by(l)
                    &&& to == pos
                    &&& post == WeightedChannel {
                        recv_ops: pre.recv_ops.push(Signal::Listen),
                        ..pre
                    }
                }
                &&& pos < pre.sent.len() ==> post == WeightedChannel {
                    head: if last {
                        pre.head + 1
                    } else {
                        pre.head
                    },
                    space: if last {
                        pre.space + pre.scale.weight(&pre.sent[pos as int])
                    } else {
                        pre.space
                    },
                    receivers: pre.receivers.remove(pos).insert(to),
                    send_ops: if last {
                        pre.send_ops.push(Signal::Notify(1))
                    } else {
                        pre.send_ops
                    },
                    ..pre
                }
            }
        }),
{
    law_receive_in_full(old(inner)@, old(recv).recv.pos());
}

/// What owns something on the heap weighs what it takes up itself and what it owns takes up there,
/// in so far as the sum can be told.
pub proof fn law_boxlike_weights<U>(
    vec: Vec<U>,
    boxed: Box<U>,
    arc: Arc<U>,
    rc: Rc<U>,
    text: String,
    reference: &U,
    weights: (usize, usize, usize, usize, usize, usize),
)
    requires
        call_ensures(<BoxlikeScale as Scale<Vec<U>>>::weigh, (&BoxlikeScale, &vec), weights.0),
        call_ensures(<BoxlikeScale as Scale<Box<U>>>::weigh, (&BoxlikeScale, &boxed), weights.1),
        call_ensures(<BoxlikeScale as Scale<Arc<U>>>::weigh, (&BoxlikeScale, &arc), weights.2),
        call_ensures(<BoxlikeScale as Scale<Rc<U>>>::weigh, (&BoxlikeScale, &rc), weights.3),
        call_ensures(<BoxlikeScale as Scale<String>>::weigh, (&BoxlikeScale, &text), weights.4),
        call_ensures(<BoxlikeScale as Scale<&U>>::weigh, (&BoxlikeScale, &reference), weights.5),
    ensures
        spec_size_of_val(&vec) + vec@.len() * size_of::<U>() <= usize::MAX ==> weights.0
            == spec_size_of_val(&vec) + vec@.len() * size_of::<U>(),
        spec_size_of_val(&boxed) + spec_size_of_val(&*boxed) <= usize::MAX ==> weights.1
            == spec_size_of_val(&boxed) + spec_size_of_val(&*boxed),
        spec_size_of_val(&arc) + spec_size_of_val(&*arc) <= usize::MAX ==> weights.2
            == spec_size_of_val(&arc) + spec_size_of_val(&*arc),
        spec_size_of_val(&rc) + spec_size_of_val(&*rc) <= usize::MAX ==> weights.3
            == spec_size_of_val(&rc) + spec_size_of_val(&*rc),
        spec_size_of_val(&text) + vstd::utf8::encode_utf8(text@).len() <= usize::MAX ==> weights.4
            == spec_size_of_val(&text) + vstd::utf8::encode_utf8(text@).len(),
        spec_size_of_val(&reference) + spec_size_of_val(reference) <= usize::MAX ==> weights.5
            == spec_size_of_val(&reference) + spec_size_of_val(reference),
{
}

/// Weights that are numbers of this type are compared, added and subtracted as such.
pub proof fn law_u8_weights(
    a: u8,
    b: u8,
    grown: &mut u8,
    shrunk: &mut u8,
    exceeds: bool,
    room: bool,
    copy: u8,
)
    requires
        call_ensures(<u8 as Weight>::exceeds, (&a, &b), exceeds),
        call_ensures(<u8 as Weight>::has_room_for, (&a, &b), room),
        call_ensures(<u8 as Weight>::duplicate, (&a,), copy),
        *old(grown) + b <= u8::MAX,
        call_ensures(<u8 as Weight>::grow, (grown, b), ()),
        b <= *old(shrunk),
        call_ensures(<u8 as Weight>::shrink, (shrunk, b), ()),
    ensures
        exceeds <==> a > b,
        room <==> a + b <= u8::MAX,
        copy == a,
        *final(grown) == *old(grown) + b,
        *final(shrunk) == *old(shrunk) - b,
        a.amount() == a,
        <u8 as Weight>::limit() == u8::MAX,
{
}

/// Weights that are numbers of this type are compared, added and subtracted as such.
pub proof fn law_u16_weights(
    a: u16,
    b: u16,
    grown: &mut u16,
    shrunk: &mut u16,
    exceeds: bool,
    room: bool,
    copy: u16,
)
    requires
        call_ensures(<u16 as Weight>::exceeds, (&a, &b), exceeds),
        call_ensures(<u16 as Weight>::has_room_for, (&a, &b), room),
        call_ensures(<u16 as Weight>::duplicate, (&a,), copy),
        *old(grown) + b <= u16::MAX,
        call_ensures(<u16 as Weight>::grow, (grown, b), ()),
        b <= *old(shrunk),
        call_ensures(<u16 as Weight>::shrink, (shrunk, b), ()),
    ensures
        exceeds <==> a > b,
        room <==> a + b <= u16::MAX,
        copy == a,
        *final(grown) == *old(grown) + b,
        *final(shrunk) == *old(shrunk) - b,
        a.amount() == a,
        <u16 as Weight>::limit() == u16::MAX,
{
}

/// Weights that are numbers of this type are compared, added and subtracted as such.
pub proof fn law_u32_weights(
    a: u32,
    b: u32,
    grown: &mut u32,
    shrunk: &mut u32,
    exceeds: bool,
    room: bool,
    copy: u32,
)
    requires
        call_ensures(<u32 as Weight>::exceeds, (&a, &b), exceeds),
        call_ensures(<u32 as Weight>::has_room_for, (&a, &b), room),
        call_ensures(<u32 as Weight>::duplicate, (&a,), copy),
        *old(grown) + b <= u32::MAX,
        call_ensures(<u32 as Weight>::grow, (grown, b), ()),
        b <= *old(shrunk),
        call_ensures(<u32 as Weight>::shrink, (shrunk, b), ()),
    ensures
        exceeds <==> a > b,
        room <==> a + b <= u32::MAX,
        copy == a,
        *final(grown) == *old(grown) + b,
        *final(shrunk) == *old(shrunk) - b,
        a.amount() == a,
        <u32 as Weight>::limit() == u32::MAX,
{
}

/// Weights that are numbers of this type are compared, added and subtracted as such.
pub proof fn law_u64_weights(
    a: u64,
    b: u64,
    grown: &mut u64,
    shrunk: &mut u64,
    exceeds: bool,
    room: bool,
    copy: u64,
)
    requires
        call_ensures(<u64 as Weight>::exceeds, (&a, &b), exceeds),
        call_ensures(<u64 as Weight>::has_room_for, (&a, &b), room),
        call_ensures(<u64 as Weight>::duplicate, (&a,), copy),
        *old(grown) + b <= u64::MAX,
        call_ensures(<u64 as Weight>::grow, (grown, b), ()),
        b <= *old(shrunk),
        call_ensures(<u64 as Weight>::shrink, (shrunk, b), ()),
    ensures
        exceeds <==> a > b,
        room <==> a + b <= u64::MAX,
        copy == a,
        *final(grown) == *old(grown) + b,
        *final(shrunk) == *old(shrunk) - b,
        a.amount() == a,
        <u64 as Weight>::limit() == u64::MAX,
{
}

/// Weights that are numbers of this type are compared, added and subtracted as such.
pub proof fn law_u128_weights(
    a: u128,
    b: u128,
    grown: &mut u128,
    shrunk: &mut u128,
    exceeds: bool,
    room: bool,
    copy: u128,
)
    requires
        call_ensures(<u128 as Weight>::exceeds, (&a, &b), exceeds),
        call_ensures(<u128 as Weight>::has_room_for, (&a, &b), room),
        call_ensures(<u128 as Weight>::duplicate, (&a,), copy),
        *old(grown) + b <= u128::MAX,
        call_ensures(<u128 as Weight>::grow, (grown, b), ()),
        b <= *old(shrunk),
        call_ensures(<u128 as Weight>::shrink, (shrunk, b), ()),
    ensures
        exceeds <==> a > b,
        room <==> a + b <= u128::MAX,
        copy == a,
        *final(grown) == *old(grown) + b,
        *final(shrunk) == *old(shrunk) - b,
        a.amount() == a,
        <u128 as Weight>::limit() == u128::MAX,
{
}

/// Weights that are numbers of this type are compared, added and subtracted as such.
pub proof fn law_usize_weights(
    a: usize,
    b: usize,
    grown: &mut usize,
    shrunk: &mut usize,
    exceeds: bool,
    room: bool,
    copy: usize,
)
    requires
        call_ensures(<usize as Weight>::exceeds, (&a, &b), exceeds),
        call_ensures(<usize as Weight>::has_room_for, (&a, &b), room),
        call_ensures(<usize as Weight>::duplicate, (&a,), copy),
        *old(grown) + b <= usize::MAX,
        call_ensures(<usize as Weight>::grow, (grown, b), ()),
        b <= *old(shrunk),
        call_ensures(<usize as Weight>::shrink, (shrunk, b), ()),
    ensures
        exceeds <==> a > b,
        room <==> a + b <= usize::MAX,
        copy == a,
        *final(grown) == *old(grown) + b,
        *final(shrunk) == *old(shrunk) - b,
        a.amount() == a,
        <usize as Weight>::limit() == usize::MAX,
{
}

} // verus!
