use async_broadcast::{broadcast, RecvError, SendError, Step};

#[test]
fn full_channel_makes_a_send_wait_for_room() {
    let (mut inner, s, mut r) = broadcast(1);
    s.try_broadcast(&mut inner, 1).unwrap();

    let mut op = s.broadcast(2);
    assert!(op.listener.is_none());
    assert_eq!(op.poll(&mut inner), Step::Retry);
    assert!(op.listener.is_some());
    assert_eq!(op.poll(&mut inner), Step::Wait);
    assert_eq!(op.msg, Some(2));

    // The last receiver to read the message makes room, and says so.
    assert_eq!(r.try_recv(&mut inner), Ok(1));
    assert!(op.listener.take().unwrap().discard());
    assert_eq!(op.poll(&mut inner), Step::Ready(Ok(None)));
    assert_eq!(op.msg, None);
    assert_eq!(r.try_recv(&mut inner), Ok(2));
}

#[test]
fn operations_listen_to_their_own_channel() {
    let (mut inner, s, mut r1) = broadcast(1);
    let mut r2 = r1.clone(&mut inner);
    assert_eq!(r2.poll_next(&mut inner), Step::Retry);
    let mut receiving = r1.recv();
    assert_eq!(receiving.poll(&mut inner), Step::Retry);
    let receiving = receiving.listener.take().unwrap();
    assert!(receiving.same_event(r2.listener_mut().as_ref().unwrap()));

    s.try_broadcast(&mut inner, 1).unwrap();
    let mut a = s.broadcast(2);
    let mut b = s.broadcast(3);
    assert_eq!(a.poll(&mut inner), Step::Retry);
    assert_eq!(b.poll(&mut inner), Step::Retry);
    let sending = a.listener.take().unwrap();
    assert!(sending.same_event(b.listener.as_ref().unwrap()));
    assert!(!sending.same_event(&receiving));
}

#[test]
fn reading_wakes_nobody_while_others_have_to_read() {
    let (mut inner, s, mut r1) = broadcast(1);
    let mut r2 = r1.clone(&mut inner);
    s.try_broadcast(&mut inner, 1).unwrap();

    let mut op = s.broadcast(2);
    assert_eq!(op.poll(&mut inner), Step::Retry);
    assert_eq!(r1.try_recv(&mut inner), Ok(1));
    assert_eq!(op.poll(&mut inner), Step::Wait);
    assert!(!op.listener.take().unwrap().discard());

    assert_eq!(op.poll(&mut inner), Step::Retry);
    assert_eq!(r2.try_recv(&mut inner), Ok(1));
    assert!(op.listener.take().unwrap().discard());
}

#[test]
fn reading_wakes_no_sender_in_overflow_mode() {
    let (mut inner, mut s, mut r) = broadcast(1);
    s.try_broadcast(&mut inner, 1).unwrap();
    let mut op = s.broadcast(2);
    assert_eq!(op.poll(&mut inner), Step::Retry);
    let listener = op.listener.take().unwrap();
    s.set_overflow(&mut inner, true);
    assert_eq!(r.try_recv(&mut inner), Ok(1));
    assert!(!listener.discard());
}

#[test]
fn send_that_leaves_room_wakes_the_next_one() {
    let (mut inner, s, mut r) = broadcast(2);
    s.try_broadcast(&mut inner, 1).unwrap();
    s.try_broadcast(&mut inner, 2).unwrap();
    let mut a = s.broadcast(3);
    let mut b = s.broadcast(4);
    assert_eq!(a.poll(&mut inner), Step::Retry);
    assert_eq!(b.poll(&mut inner), Step::Retry);

    // Two messages go, but the first notification is still under way at the second one.
    assert_eq!(r.try_recv(&mut inner), Ok(1));
    assert_eq!(r.try_recv(&mut inner), Ok(2));
    assert!(a.listener.take().unwrap().discard());
    assert_eq!(a.poll(&mut inner), Step::Ready(Ok(None)));
    assert!(b.listener.take().unwrap().discard());
    assert_eq!(b.poll(&mut inner), Step::Ready(Ok(None)));
    assert!(s.is_full(&inner));
}

#[test]
fn send_that_fills_the_channel_wakes_nobody() {
    let (mut inner, s, mut r) = broadcast(1);
    s.try_broadcast(&mut inner, 1).unwrap();
    let mut a = s.broadcast(2);
    let mut b = s.broadcast(3);
    assert_eq!(a.poll(&mut inner), Step::Retry);
    assert_eq!(b.poll(&mut inner), Step::Retry);
    assert_eq!(r.try_recv(&mut inner), Ok(1));
    assert!(a.listener.take().unwrap().discard());
    assert_eq!(a.poll(&mut inner), Step::Ready(Ok(None)));
    assert!(!b.listener.take().unwrap().discard());
}

#[test]
fn message_wakes_all_who_wait_to_receive() {
    let (mut inner, s, mut r1) = broadcast(3);
    let mut r2 = r1.clone(&mut inner);

    let mut op = r1.recv();
    assert_eq!(op.poll(&mut inner), Step::Retry);
    assert_eq!(op.poll(&mut inner), Step::Wait);
    assert_eq!(r2.poll_next(&mut inner), Step::Retry);
    assert_eq!(r2.poll_next(&mut inner), Step::Wait);

    s.try_broadcast(&mut inner, 5).unwrap();
    assert!(op.listener.take().unwrap().discard());
    assert!(r2.listener_mut().take().unwrap().discard());
    assert_eq!(op.poll(&mut inner), Step::Ready(Ok(5)));
    assert_eq!(r2.poll_next(&mut inner), Step::Ready(Some(5)));
    assert!(r2.listener_mut().is_none());
}

#[test]
fn refused_message_wakes_nobody() {
    let (mut inner, s, r1) = broadcast(1);
    let mut r2 = r1.clone(&mut inner);
    s.try_broadcast(&mut inner, 1).unwrap();
    assert_eq!(r2.try_recv(&mut inner), Ok(1));
    let mut op = r2.recv();
    assert_eq!(op.poll(&mut inner), Step::Retry);
    assert!(s.try_broadcast(&mut inner, 2).unwrap_err().is_full());
    assert!(!op.listener.take().unwrap().discard());
}

#[test]
fn closing_wakes_everybody() {
    let (mut inner, s, mut r1) = broadcast(1);
    let mut r2 = r1.clone(&mut inner);
    s.try_broadcast(&mut inner, 1).unwrap();
    assert_eq!(r1.try_recv(&mut inner), Ok(1));

    let mut sending = s.broadcast(2);
    assert_eq!(sending.poll(&mut inner), Step::Retry);
    {
        let mut receiving = r1.recv();
        assert_eq!(receiving.poll(&mut inner), Step::Retry);
        assert!(r2.close(&mut inner));
        assert!(sending.listener.take().unwrap().discard());
        assert!(receiving.listener.take().unwrap().discard());
        assert_eq!(sending.poll(&mut inner), Step::Ready(Err(SendError::Closed(2))));
        assert_eq!(receiving.poll(&mut inner), Step::Ready(Err(RecvError::Closed)));
    }
    assert_eq!(r2.poll_next(&mut inner), Step::Ready(Some(1)));
    assert_eq!(r2.poll_next(&mut inner), Step::Ready(None));
}

#[test]
fn inactive_channel_makes_a_send_wait_for_a_receiver() {
    let (mut inner, s, r) = broadcast(1);
    let inactive = r.deactivate(&mut inner);
    let mut op = s.broadcast(10);
    assert_eq!(op.poll(&mut inner), Step::Retry);
    assert_eq!(op.poll(&mut inner), Step::Wait);

    let mut r = inactive.activate(&mut inner);
    assert!(op.listener.take().unwrap().discard());
    assert_eq!(op.poll(&mut inner), Step::Ready(Ok(None)));
    assert_eq!(r.try_recv(&mut inner), Ok(10));
}

#[test]
fn second_active_receiver_wakes_no_sender() {
    let (mut inner, s, r) = broadcast(1);
    let inactive = r.clone(&mut inner).deactivate(&mut inner);
    s.try_broadcast(&mut inner, 1).unwrap();
    let mut op = s.broadcast(2);
    assert_eq!(op.poll(&mut inner), Step::Retry);
    let _r2 = inactive.activate_cloned(&mut inner);
    assert!(!op.listener.take().unwrap().discard());
}

#[test]
fn receiver_that_goes_makes_room() {
    let (mut inner, s, r) = broadcast(2);
    let mut other = r.clone(&mut inner);
    s.try_broadcast(&mut inner, 1).unwrap();
    s.try_broadcast(&mut inner, 2).unwrap();
    assert_eq!(other.try_recv(&mut inner), Ok(1));
    let mut op = s.broadcast(3);
    assert_eq!(op.poll(&mut inner), Step::Retry);

    r.drop(&mut inner);
    assert_eq!(s.len(&inner), 1);
    assert!(op.listener.take().unwrap().discard());
    assert_eq!(op.poll(&mut inner), Step::Ready(Ok(None)));
    assert_eq!(other.try_recv(&mut inner), Ok(2));
    assert_eq!(other.try_recv(&mut inner), Ok(3));
}

#[test]
fn growing_the_capacity_wakes_nobody() {
    let (mut inner, mut s, _r) = broadcast(1);
    s.try_broadcast(&mut inner, 1).unwrap();
    let listener = {
        let mut op = s.broadcast(2);
        assert_eq!(op.poll(&mut inner), Step::Retry);
        op.listener.take().unwrap()
    };
    s.set_capacity(&mut inner, 2);
    assert!(!listener.discard());
    assert_eq!(s.try_broadcast(&mut inner, 2), Ok(None));
}
