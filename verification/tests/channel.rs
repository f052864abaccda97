use async_broadcast::{broadcast, FullError, TryRecvError, TrySendError};

#[test]
fn try_broadcast_hands_the_message_back() {
    let (mut inner, s, mut r1) = broadcast(1);
    let mut r2 = r1.clone(&mut inner);

    assert_eq!(s.try_broadcast(&mut inner, 10), Ok(None));
    assert_eq!(s.try_broadcast(&mut inner, 20).unwrap_err().into_inner(), 20);

    assert_eq!(r1.try_recv(&mut inner), Ok(10));
    assert_eq!(r2.try_recv(&mut inner), Ok(10));
    assert_eq!(r1.try_recv(&mut inner), Err(TryRecvError::Empty));
    assert_eq!(r2.try_recv(&mut inner), Err(TryRecvError::Empty));
}

#[test]
fn try_broadcast_errors() {
    let (mut inner, s, r) = broadcast(1);
    assert_eq!(s.try_broadcast(&mut inner, 1), Ok(None));
    assert_eq!(
        s.try_broadcast(&mut inner, 2),
        Err(TrySendError::Full { msg: 2, error: FullError })
    );
    assert_eq!(s.len(&inner), 1);
    r.drop(&mut inner);
    assert_eq!(s.try_broadcast(&mut inner, 3), Err(TrySendError::Closed(3)));
}

#[test]
fn sender_sets_the_capacity() {
    let (mut inner, mut s, mut r) = broadcast::<i32>(3);
    assert_eq!(s.capacity(&inner), 3);
    s.try_broadcast(&mut inner, 1).unwrap();
    s.try_broadcast(&mut inner, 2).unwrap();
    s.try_broadcast(&mut inner, 3).unwrap();

    s.set_capacity(&mut inner, 1);
    assert_eq!(s.capacity(&inner), 1);
    assert_eq!(r.try_recv(&mut inner), Err(TryRecvError::Overflowed(2)));
    assert_eq!(r.try_recv(&mut inner).unwrap(), 3);
    assert_eq!(r.try_recv(&mut inner), Err(TryRecvError::Empty));
    s.try_broadcast(&mut inner, 1).unwrap();
    assert!(matches!(s.try_broadcast(&mut inner, 2), Err(TrySendError::Full { msg: 2, .. })));

    s.set_capacity(&mut inner, 2);
    assert_eq!(s.capacity(&inner), 2);
    s.try_broadcast(&mut inner, 2).unwrap();
    assert!(matches!(s.try_broadcast(&mut inner, 2), Err(TrySendError::Full { msg: 2, .. })));
}

#[test]
fn receiver_sets_the_capacity() {
    let (mut inner, s, mut r) = broadcast::<i32>(3);
    assert_eq!(r.capacity(&inner), 3);
    s.try_broadcast(&mut inner, 1).unwrap();
    s.try_broadcast(&mut inner, 2).unwrap();
    s.try_broadcast(&mut inner, 3).unwrap();

    r.set_capacity(&mut inner, 1);
    assert_eq!(r.capacity(&inner), 1);
    assert_eq!(r.try_recv(&mut inner), Err(TryRecvError::Overflowed(2)));
    assert_eq!(r.try_recv(&mut inner).unwrap(), 3);
    assert_eq!(r.try_recv(&mut inner), Err(TryRecvError::Empty));
    s.try_broadcast(&mut inner, 1).unwrap();
    assert!(matches!(s.try_broadcast(&mut inner, 2), Err(TrySendError::Full { msg: 2, .. })));

    r.set_capacity(&mut inner, 2);
    assert_eq!(r.capacity(&inner), 2);
    s.try_broadcast(&mut inner, 2).unwrap();
    assert!(matches!(s.try_broadcast(&mut inner, 2), Err(TrySendError::Full { msg: 2, .. })));
}

#[test]
fn inactive_receiver_sets_the_capacity() {
    let (mut inner, s, r) = broadcast::<i32>(3);
    let mut inactive = r.clone(&mut inner).deactivate(&mut inner);
    assert_eq!(inactive.capacity(&inner), 3);
    s.try_broadcast(&mut inner, 1).unwrap();
    s.try_broadcast(&mut inner, 2).unwrap();
    inactive.set_capacity(&mut inner, 1);
    assert_eq!(inactive.capacity(&inner), 1);
    assert_eq!(inactive.len(&inner), 1);
    assert!(inactive.is_full(&inner));
    r.drop(&mut inner);
    assert!(inactive.is_empty(&inner));
}

#[test]
fn capacity_is_adjusted_from_both_sides() {
    let (mut inner, mut s, mut r) = broadcast::<i32>(3);
    s.try_broadcast(&mut inner, 1).unwrap();
    s.try_broadcast(&mut inner, 2).unwrap();
    s.try_broadcast(&mut inner, 3).unwrap();

    s.adjust_capacity(&mut inner, 1);
    assert_eq!(r.try_recv(&mut inner), Err(TryRecvError::Overflowed(2)));
    assert_eq!(r.try_recv(&mut inner).unwrap(), 3);
    assert_eq!(r.try_recv(&mut inner), Err(TryRecvError::Empty));
    s.try_broadcast(&mut inner, 1).unwrap();
    assert!(matches!(s.try_broadcast(&mut inner, 2), Err(TrySendError::Full { msg: 2, .. })));

    r.adjust_capacity(&mut inner, 2);
    s.try_broadcast(&mut inner, 2).unwrap();
    assert!(matches!(s.try_broadcast(&mut inner, 2), Err(TrySendError::Full { msg: 2, .. })));
}

#[test]
fn zero_capacity_rejects_every_message() {
    let (mut inner, mut s, mut r) = broadcast::<i32>(2);
    s.try_broadcast(&mut inner, 1).unwrap();
    s.set_capacity(&mut inner, 0);
    assert_eq!(r.try_recv(&mut inner), Err(TryRecvError::Overflowed(1)));
    assert_eq!(r.try_recv(&mut inner), Err(TryRecvError::Empty));
    assert_eq!(
        s.try_broadcast(&mut inner, 2),
        Err(TrySendError::Rejected { msg: 2, error: FullError })
    );
    s.set_overflow(&mut inner, true);
    assert_eq!(
        s.try_broadcast(&mut inner, 2),
        Err(TrySendError::Rejected { msg: 2, error: FullError })
    );
}

#[test]
fn overflow_drops_the_oldest() {
    let (mut inner, mut s, mut r) = broadcast::<i32>(2);
    assert!(!s.overflow(&inner));
    s.try_broadcast(&mut inner, 1).unwrap();
    s.try_broadcast(&mut inner, 2).unwrap();
    assert!(matches!(s.try_broadcast(&mut inner, 3), Err(TrySendError::Full { msg: 3, .. })));
    s.set_overflow(&mut inner, true);
    assert!(r.overflow(&inner));
    assert_eq!(s.try_broadcast(&mut inner, 3).unwrap(), Some(1));
    assert_eq!(s.try_broadcast(&mut inner, 4).unwrap(), Some(2));

    assert_eq!(r.try_recv(&mut inner), Err(TryRecvError::Overflowed(2)));
    assert_eq!(r.try_recv(&mut inner).unwrap(), 3);
    assert_eq!(r.try_recv(&mut inner).unwrap(), 4);
    assert_eq!(r.try_recv(&mut inner), Err(TryRecvError::Empty));
}

#[test]
fn receiver_sets_overflow_mode() {
    let (mut inner, s, mut r) = broadcast::<i32>(1);
    r.set_overflow(&mut inner, true);
    assert!(s.overflow(&inner));
    s.try_broadcast(&mut inner, 1).unwrap();
    assert_eq!(s.try_broadcast(&mut inner, 2), Ok(Some(1)));
    r.set_overflow(&mut inner, false);
    assert_eq!(
        s.try_broadcast(&mut inner, 3),
        Err(TrySendError::Full { msg: 3, error: FullError })
    );
}

#[test]
fn counts_are_those_of_the_handles() {
    let (mut inner, s, r) = broadcast::<()>(1);
    assert_eq!(s.receiver_count(&inner), 1);
    assert_eq!(s.sender_count(&inner), 1);
    let r = r.deactivate(&mut inner);
    assert_eq!(s.receiver_count(&inner), 0);
    assert_eq!(s.inactive_receiver_count(&inner), 1);

    let r2 = r.activate_cloned(&mut inner);
    assert_eq!(r.receiver_count(&inner), 1);
    assert_eq!(r.inactive_receiver_count(&inner), 1);
    assert_eq!(r2.receiver_count(&inner), 1);
    assert_eq!(r2.inactive_receiver_count(&inner), 1);

    let s2 = s.clone(&mut inner);
    assert_eq!(r.sender_count(&inner), 2);
    assert_eq!(r2.sender_count(&inner), 2);
    s2.drop(&mut inner);
    assert_eq!(s.sender_count(&inner), 1);

    let r3 = r2.clone(&mut inner);
    assert_eq!(s.receiver_count(&inner), 2);
    r3.drop(&mut inner);
    assert_eq!(s.receiver_count(&inner), 1);
}

#[test]
fn emptiness_and_fullness() {
    let (mut inner, s, mut r) = broadcast(2);
    assert!(s.is_empty(&inner) && r.is_empty(&inner));
    assert!(!s.is_full(&inner));
    assert_eq!(s.len(&inner), 0);
    s.try_broadcast(&mut inner, 1).unwrap();
    assert!(!s.is_empty(&inner) && !s.is_full(&inner));
    s.try_broadcast(&mut inner, 2).unwrap();
    assert!(s.is_full(&inner) && r.is_full(&inner));
    assert_eq!(r.len(&inner), 2);
    r.try_recv(&mut inner).unwrap();
    assert_eq!(s.len(&inner), 1);
    assert!(!s.is_full(&inner));
}

#[test]
fn last_receiver_closes_the_channel() {
    let (mut inner, s, r) = broadcast::<()>(1);
    assert!(!s.is_closed(&inner));
    r.drop(&mut inner);
    assert!(s.is_closed(&inner));
}

#[test]
fn last_sender_closes_the_channel() {
    let (mut inner, s, mut r) = broadcast(2);
    s.try_broadcast(&mut inner, 1).unwrap();
    let s2 = s.clone(&mut inner);
    s.drop(&mut inner);
    assert!(!r.is_closed(&inner));
    s2.try_broadcast(&mut inner, 2).unwrap();
    s2.drop(&mut inner);
    assert!(r.is_closed(&inner));
    assert!(!r.is_terminated(&inner));

    assert_eq!(r.try_recv(&mut inner), Ok(1));
    assert_eq!(r.try_recv(&mut inner), Ok(2));
    assert_eq!(r.try_recv(&mut inner), Err(TryRecvError::Closed));
    assert!(r.is_terminated(&inner));
}

#[test]
fn closing_keeps_messages() {
    let (mut inner, s, mut r) = broadcast(2);
    s.try_broadcast(&mut inner, 1).unwrap();
    assert!(r.close(&mut inner));
    assert!(!r.close(&mut inner));
    assert_eq!(s.try_broadcast(&mut inner, 2), Err(TrySendError::Closed(2)));
    assert_eq!(s.len(&inner), 1);
    assert_eq!(r.try_recv(&mut inner), Ok(1));
    assert_eq!(r.try_recv(&mut inner), Err(TryRecvError::Closed));
}

#[test]
fn deactivated_receiver_keeps_the_channel_open() {
    let (mut inner, s, r) = broadcast(1);
    let inactive = r.deactivate(&mut inner);
    assert!(!s.is_closed(&inner));
    assert_eq!(s.try_broadcast(&mut inner, 10), Err(TrySendError::Inactive(10)));

    let mut r = inactive.activate(&mut inner);
    assert_eq!(s.inactive_receiver_count(&inner), 0);
    assert_eq!(s.try_broadcast(&mut inner, 10), Ok(None));
    assert_eq!(r.try_recv(&mut inner), Ok(10));
}

#[test]
fn cloned_activation_keeps_the_inactive_receiver() {
    let (mut inner, s, r) = broadcast(1);
    let inactive = r.deactivate(&mut inner);
    assert_eq!(s.try_broadcast(&mut inner, 10), Err(TrySendError::Inactive(10)));

    let mut r = inactive.activate_cloned(&mut inner);
    assert_eq!(s.try_broadcast(&mut inner, 10), Ok(None));
    assert_eq!(r.try_recv(&mut inner), Ok(10));
    r.drop(&mut inner);
    assert!(!s.is_closed(&inner));
    inactive.drop(&mut inner);
    assert!(s.is_closed(&inner));
}

#[test]
fn inactive_receivers_count_one_by_one() {
    let (mut inner, s, r) = broadcast::<u8>(1);
    let mut a = r.deactivate(&mut inner);
    let b = a.clone(&mut inner);
    assert_eq!(s.inactive_receiver_count(&inner), 2);
    a.set_overflow(&mut inner, true);
    assert!(b.overflow(&inner));
    b.drop(&mut inner);
    assert!(!a.is_closed(&inner));
    assert_eq!(a.sender_count(&inner), 1);
    assert!(a.close(&mut inner));
    assert!(!a.close(&mut inner));
    a.drop(&mut inner);
    assert!(s.is_closed(&inner));
}

#[test]
fn deactivating_gives_up_what_is_left() {
    let (mut inner, s, r) = broadcast(3);
    let mut other = r.clone(&mut inner);
    s.try_broadcast(&mut inner, 1).unwrap();
    s.try_broadcast(&mut inner, 2).unwrap();
    assert_eq!(other.try_recv(&mut inner), Ok(1));
    let _inactive = r.deactivate(&mut inner);
    assert_eq!(s.len(&inner), 1);
    assert_eq!(other.try_recv(&mut inner), Ok(2));
    assert!(s.is_empty(&inner));
}

#[test]
fn receiver_that_goes_takes_nothing_from_others() {
    let (mut inner, s, r1) = broadcast(4);
    let mut r2 = r1.clone(&mut inner);
    let mut r3 = r1.clone(&mut inner);
    for msg in 0..4 {
        s.try_broadcast(&mut inner, msg).unwrap();
    }
    assert_eq!(r2.try_recv(&mut inner), Ok(0));
    r1.drop(&mut inner);
    assert_eq!(s.len(&inner), 4);
    for msg in 0..4 {
        assert_eq!(r3.try_recv(&mut inner), Ok(msg));
    }
    assert_eq!(s.len(&inner), 3);
    for msg in 1..4 {
        assert_eq!(r2.try_recv(&mut inner), Ok(msg));
    }
    assert!(s.is_empty(&inner));
}

#[test]
fn receiver_that_fell_behind_can_go() {
    let (mut inner, mut s, r1) = broadcast(2);
    let mut r2 = r1.clone(&mut inner);
    s.set_overflow(&mut inner, true);
    for msg in 0..5 {
        s.try_broadcast(&mut inner, msg).unwrap();
    }
    assert_eq!(r2.try_recv(&mut inner), Err(TryRecvError::Overflowed(3)));
    r1.drop(&mut inner);
    assert_eq!(s.len(&inner), 2);
    assert_eq!(r2.try_recv(&mut inner), Ok(3));
    assert_eq!(r2.try_recv(&mut inner), Ok(4));
    assert_eq!(r2.try_recv(&mut inner), Err(TryRecvError::Empty));
}

#[test]
fn new_receiver_starts_with_the_next_message() {
    let (mut inner, s, mut r1) = broadcast(4);
    s.try_broadcast(&mut inner, 1).unwrap();
    let mut r2 = r1.clone(&mut inner);
    assert_eq!(r2.try_recv(&mut inner), Err(TryRecvError::Empty));
    s.try_broadcast(&mut inner, 2).unwrap();
    assert_eq!(r2.try_recv(&mut inner), Ok(2));
    assert_eq!(r1.try_recv(&mut inner), Ok(1));
    assert_eq!(r1.try_recv(&mut inner), Ok(2));
}

#[test]
fn messages_come_in_order_and_stay_until_all_have_read_them() {
    let (mut inner, s, mut r1) = broadcast(3);
    let mut r2 = r1.clone(&mut inner);
    s.try_broadcast(&mut inner, "a".to_string()).unwrap();
    s.try_broadcast(&mut inner, "b".to_string()).unwrap();
    assert_eq!(r1.try_recv(&mut inner).unwrap(), "a");
    assert_eq!(s.len(&inner), 2);
    assert_eq!(r2.try_recv(&mut inner).unwrap(), "a");
    assert_eq!(s.len(&inner), 1);
    s.try_broadcast(&mut inner, "c".to_string()).unwrap();
    assert_eq!(r2.try_recv(&mut inner).unwrap(), "b");
    assert_eq!(r2.try_recv(&mut inner).unwrap(), "c");
    assert_eq!(s.len(&inner), 2);
    assert_eq!(r1.try_recv(&mut inner).unwrap(), "b");
    assert_eq!(r1.try_recv(&mut inner).unwrap(), "c");
    assert!(s.is_empty(&inner));
}

#[test]
fn shared_state_answers_for_itself() {
    let (mut inner, s, r) = broadcast(3);
    s.try_broadcast(&mut inner, 1).unwrap();
    s.try_broadcast(&mut inner, 2).unwrap();
    assert_eq!(inner.sent_count(), 2);
    assert_eq!(inner.len(), 2);
    assert_eq!(inner.limiter().0, 3);
    assert_eq!(inner.adjust_capacity(1), Ok(()));
    assert_eq!(inner.limiter().0, 1);
    assert_eq!(inner.len(), 1);
    assert_eq!(inner.sent_count(), 2);
    r.drop(&mut inner);
    assert!(inner.is_closed());
    assert_eq!(inner.sent_count(), 2);
}
