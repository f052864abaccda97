use async_broadcast::weighted::{weighted_broadcaster, BoxlikeScale, Scale, Weight};
use async_broadcast::{FullError, RecvError, SendError, Step, TryRecvError, TrySendError};
use std::rc::Rc;
use std::sync::Arc;

/// Every message weighs what it says.
#[derive(Clone, Copy, Debug)]
struct FaceValue;

impl Scale<u64> for FaceValue {
    type Weight = u64;

    fn weigh(&self, item: &u64) -> u64 {
        *item
    }
}

fn full(msg: u64) -> Result<(), TrySendError<u64>> {
    Err(TrySendError::Full { msg, error: FullError })
}

#[test]
fn bytes_on_the_heap_count() {
    let (mut inner, send, mut recv) = weighted_broadcaster(BoxlikeScale, 200);

    send.try_broadcast(&mut inner, vec![0u8; 100]).unwrap();
    let fail = send.try_broadcast(&mut inner, vec![0u8; 100]);
    assert!(matches!(fail, Err(TrySendError::Full { .. })));
    send.try_broadcast(&mut inner, vec![0u8; 10]).unwrap();

    assert_eq!(recv.try_recv(&mut inner).unwrap().len(), 100);
    assert_eq!(recv.try_recv(&mut inner).unwrap().len(), 10);
    assert_eq!(recv.try_recv(&mut inner), Err(TryRecvError::Empty));
}

#[test]
fn boxlike_weights() {
    let word = std::mem::size_of::<usize>();
    assert_eq!(BoxlikeScale.weigh(&vec![0u8; 100]), 3 * word + 100);
    assert_eq!(BoxlikeScale.weigh(&vec![0u32; 5]), 3 * word + 20);
    assert_eq!(BoxlikeScale.weigh(&Vec::<u64>::new()), 3 * word);
    assert_eq!(BoxlikeScale.weigh(&Box::new(0u64)), word + 8);
    let slice: Box<[u16]> = vec![1, 2, 3].into_boxed_slice();
    assert_eq!(BoxlikeScale.weigh(&slice), 2 * word + 6);
    assert_eq!(BoxlikeScale.weigh(&Arc::new(0u32)), word + 4);
    assert_eq!(BoxlikeScale.weigh(&Rc::new([0u8; 7])), word + 7);
    assert_eq!(BoxlikeScale.weigh(&"text"), 2 * word + 4);
    assert_eq!(BoxlikeScale.weigh(&&5u16), word + 2);
    assert_eq!(BoxlikeScale.weigh(&"four".to_string()), 3 * word + 4);
    assert_eq!(BoxlikeScale.weigh(&"h\u{e9}".to_string()), 3 * word + 3);
}

#[test]
fn space_is_used_up_and_freed() {
    let (mut inner, s, mut r1) = weighted_broadcaster(FaceValue, 10);
    let mut r2 = s.new_receiver(&mut inner);
    assert_eq!(s.space(&inner), 10);
    assert_eq!(s.try_broadcast(&mut inner, 6), Ok(()));
    assert_eq!(s.space(&inner), 4);
    assert_eq!(s.try_broadcast(&mut inner, 5), full(5));
    assert_eq!(s.try_broadcast(&mut inner, 4), Ok(()));
    assert_eq!(s.space(&inner), 0);

    assert_eq!(r1.try_recv(&mut inner), Ok(6));
    assert_eq!(s.space(&inner), 0);
    assert_eq!(r2.try_recv(&mut inner), Ok(6));
    assert_eq!(s.space(&inner), 6);
    assert_eq!(r1.try_recv(&mut inner), Ok(4));
    assert_eq!(r2.try_recv(&mut inner), Ok(4));
    assert_eq!(s.space(&inner), 10);
}

#[test]
fn overflow_drops_no_more_than_needed() {
    let (mut inner, s, mut r) = weighted_broadcaster(FaceValue, 10);
    assert!(!s.overflow(&inner));
    r.set_overflow(&mut inner, true);
    assert!(s.overflow(&inner) && r.overflow(&inner));
    for msg in [2, 3, 4] {
        assert_eq!(s.try_broadcast(&mut inner, msg), Ok(()));
    }
    assert_eq!(s.try_broadcast(&mut inner, 6), Ok(()));
    assert_eq!(s.space(&inner), 0);
    assert_eq!(r.try_recv(&mut inner), Err(TryRecvError::Overflowed(2)));
    assert_eq!(r.try_recv(&mut inner), Ok(4));
    assert_eq!(r.try_recv(&mut inner), Ok(6));
    assert_eq!(s.space(&inner), 10);
}

#[test]
fn message_that_is_too_heavy_empties_an_overflowing_channel() {
    let (mut inner, s, mut r) = weighted_broadcaster(FaceValue, 10);
    s.set_overflow(&mut inner, true);
    s.try_broadcast(&mut inner, 2).unwrap();
    s.try_broadcast(&mut inner, 3).unwrap();
    assert_eq!(s.try_broadcast(&mut inner, 11), full(11));
    assert_eq!(s.space(&inner), 10);
    assert_eq!(r.try_recv(&mut inner), Err(TryRecvError::Overflowed(2)));
    assert_eq!(r.try_recv(&mut inner), Err(TryRecvError::Empty));
}

#[test]
fn space_can_be_added_and_removed() {
    let (mut inner, s, _r) = weighted_broadcaster(FaceValue, 10);
    s.try_broadcast(&mut inner, 7).unwrap();
    assert!(!s.remove_space(&mut inner, 4));
    assert_eq!(s.space(&inner), 3);
    assert!(s.remove_space(&mut inner, 3));
    assert_eq!(s.space(&inner), 0);
    s.add_space(&mut inner, 5);
    assert_eq!(s.space(&inner), 5);
    assert_eq!(s.try_broadcast(&mut inner, 5), Ok(()));

    // Seven and five are in use, and nothing is left.
    assert_eq!(s.space(&inner), 0);
    assert!(inner.can_add_space(&(u64::MAX - 12)));
    assert!(!inner.can_add_space(&(u64::MAX - 11)));
}

#[test]
fn last_sender_and_last_receiver_close() {
    let (mut inner, s, mut r) = weighted_broadcaster(FaceValue, 10);
    s.try_broadcast(&mut inner, 1).unwrap();
    let s2 = s.clone(&mut inner);
    assert_eq!(inner.sender_count(), 2);
    s.drop(&mut inner);
    assert_eq!(s2.try_broadcast(&mut inner, 2), Ok(()));
    s2.drop(&mut inner);

    // A new sender does not open the channel again.
    let s3 = r.new_sender(&mut inner);
    assert_eq!(s3.try_broadcast(&mut inner, 3), Err(TrySendError::Closed(3)));
    assert_eq!(r.try_recv(&mut inner), Ok(1));
    assert_eq!(r.try_recv(&mut inner), Ok(2));
    assert_eq!(r.try_recv(&mut inner), Err(TryRecvError::Closed));

    let (mut inner, s, r) = weighted_broadcaster(FaceValue, 10);
    let r2 = r.new_receiver(&mut inner);
    r.drop(&mut inner);
    assert_eq!(s.try_broadcast(&mut inner, 1), Ok(()));
    assert_eq!(s.space(&inner), 9);
    r2.drop(&mut inner);
    assert_eq!(s.space(&inner), 10);
    assert_eq!(s.try_broadcast(&mut inner, 2), Err(TrySendError::Closed(2)));

    // Neither does a new receiver.
    let mut r3 = s.new_receiver(&mut inner);
    assert_eq!(inner.receiver_count(), 1);
    assert_eq!(r3.try_recv(&mut inner), Err(TryRecvError::Closed));
}

#[test]
fn receiver_that_goes_frees_what_only_it_had_to_read() {
    let (mut inner, s, r1) = weighted_broadcaster(FaceValue, 10);
    let mut r2 = s.new_sender(&mut inner).new_receiver(&mut inner);
    s.try_broadcast(&mut inner, 3).unwrap();
    s.try_broadcast(&mut inner, 4).unwrap();
    assert_eq!(r2.try_recv(&mut inner), Ok(3));
    r1.drop(&mut inner);
    assert_eq!(s.space(&inner), 6);
    assert_eq!(r2.try_recv(&mut inner), Ok(4));
    assert_eq!(inner.sent_count(), 2);
}

#[test]
fn closing_ends_everything_that_waits() {
    let (mut inner, s, mut r) = weighted_broadcaster(FaceValue, 5);
    let mut r2 = r.new_receiver(&mut inner);
    s.try_broadcast(&mut inner, 5).unwrap();
    assert_eq!(r.try_recv(&mut inner), Ok(5));
    let mut sending = s.broadcast(1);
    assert_eq!(sending.poll(&mut inner), Step::Wait);
    {
        let mut receiving = r.recv();
        assert_eq!(receiving.poll(&mut inner), Step::Wait);
        assert_eq!(receiving.poll(&mut inner), Step::Wait);
        r2.close(&mut inner);
        assert!(receiving.waiter.take().unwrap().discard());
        assert_eq!(receiving.poll(&mut inner), Step::Ready(Err(RecvError::Closed)));
    }
    assert!(sending.waiter_mut().take().unwrap().discard());
    assert_eq!(sending.poll(&mut inner), Step::Ready(Err(SendError::Closed(1))));
    assert_eq!(r2.recv().poll(&mut inner), Step::Ready(Ok(5)));
    assert_eq!(r2.recv().poll(&mut inner), Step::Ready(Err(RecvError::Closed)));
}

#[test]
fn waiting_send_and_receive() {
    let (mut inner, s, mut r) = weighted_broadcaster(FaceValue, 5);
    {
        let mut receiving = r.recv();
        assert_eq!(receiving.poll(&mut inner), Step::Wait);
        s.try_broadcast(&mut inner, 4).unwrap();
        assert!(receiving.waiter.take().unwrap().discard());
        assert_eq!(receiving.poll(&mut inner), Step::Ready(Ok(4)));
    }
    s.try_broadcast(&mut inner, 3).unwrap();
    let mut sending = s.broadcast(4);
    assert_eq!(sending.poll(&mut inner), Step::Wait);
    assert_eq!(sending.poll(&mut inner), Step::Wait);
    assert_eq!(r.try_recv(&mut inner), Ok(3));
    assert!(sending.waiter_mut().take().unwrap().discard());
    assert_eq!(sending.poll(&mut inner), Step::Ready(Ok(())));
    assert_eq!(sending.poll(&mut inner), Step::Ready(Ok(())));
    assert_eq!(inner.sent_count(), 3);
}

#[test]
fn waiting_receive_reports_missed_weighted_messages() {
    let (mut inner, s, mut r) = weighted_broadcaster(FaceValue, 5);
    s.set_overflow(&mut inner, true);
    for msg in [5, 4, 3] {
        s.try_broadcast(&mut inner, msg).unwrap();
    }
    assert_eq!(r.recv().poll(&mut inner), Step::Ready(Err(RecvError::Overflowed(2))));
    assert_eq!(r.recv().poll(&mut inner), Step::Ready(Ok(3)));
    s.close(&mut inner);
    assert_eq!(s.try_broadcast(&mut inner, 1), Err(TrySendError::Closed(1)));
}

/// A scale whose weights are of the given type.
#[derive(Clone, Copy, Debug)]
struct Small;

impl Scale<u8> for Small {
    type Weight = u8;

    fn weigh(&self, item: &u8) -> u8 {
        *item
    }
}

impl Scale<u128> for Small {
    type Weight = u128;

    fn weigh(&self, item: &u128) -> u128 {
        *item
    }
}

#[test]
fn weights_of_other_types() {
    let (mut inner, s, mut r) = weighted_broadcaster(Small, 200u8);
    assert!(inner.can_add_space(&55));
    assert!(!inner.can_add_space(&56));
    assert_eq!(s.try_broadcast(&mut inner, 150u8), Ok(()));
    assert_eq!(
        s.try_broadcast(&mut inner, 51),
        Err(TrySendError::Full { msg: 51, error: FullError })
    );
    assert_eq!(s.space(&inner), 50);
    assert_eq!(r.try_recv(&mut inner), Ok(150));

    let (mut inner, s, _r) = weighted_broadcaster(Small, u128::MAX);
    assert_eq!(s.try_broadcast(&mut inner, u128::MAX), Ok(()));
    assert_eq!(s.space(&inner), 0);
    assert!(!inner.can_add_space(&1));

    assert!(4u16.exceeds(&3) && !3u16.exceeds(&3));
    let mut weight = 7u32;
    weight.grow(5);
    weight.shrink(2);
    assert_eq!(weight.duplicate(), 10);
    assert!(weight.has_room_for(&(u32::MAX - 10)) && !weight.has_room_for(&(u32::MAX - 9)));
}
