use async_broadcast::{broadcast, CapacityLimiter, Inner, Receiver, Recv, Send, SendError, Step};

/// Runs a send that has no reason to wait.
fn send<T: Clone, L: CapacityLimiter<T>>(
    mut op: Send<'_, T, L>,
    inner: &mut Inner<T, L>,
) -> Result<Option<T>, SendError<T, L::Error>> {
    loop {
        match op.poll(inner) {
            Step::Ready(result) => return result,
            Step::Retry => {}
            Step::Wait => panic!("the send has to wait"),
        }
    }
}

/// Runs a receive that has no reason to wait.
fn recv<T: Clone, L: CapacityLimiter<T>>(
    mut op: Recv<'_, T, L>,
    inner: &mut Inner<T, L>,
) -> Result<T, async_broadcast::RecvError> {
    loop {
        match op.poll(inner) {
            Step::Ready(result) => return result,
            Step::Retry => {}
            Step::Wait => panic!("the receive has to wait"),
        }
    }
}

/// The next message of a stream that has no reason to wait.
fn next<T: Clone, L: CapacityLimiter<T>>(
    r: &mut Receiver<T, L>,
    inner: &mut Inner<T, L>,
) -> Option<T> {
    loop {
        match r.poll_next(inner) {
            Step::Ready(msg) => return msg,
            Step::Retry => {}
            Step::Wait => panic!("the stream has to wait"),
        }
    }
}

#[test]
fn basic_sync() {
    let (mut inner, s, mut r1) = broadcast(10);
    let mut r2 = r1.clone(&mut inner);

    s.try_broadcast(&mut inner, 7).unwrap();
    assert_eq!(r1.try_recv(&mut inner).unwrap(), 7);
    assert_eq!(r2.try_recv(&mut inner).unwrap(), 7);

    let mut r3 = r1.clone(&mut inner);
    s.try_broadcast(&mut inner, 8).unwrap();
    assert_eq!(r1.try_recv(&mut inner).unwrap(), 8);
    assert_eq!(r2.try_recv(&mut inner).unwrap(), 8);
    assert_eq!(r3.try_recv(&mut inner).unwrap(), 8);
}

#[test]
fn basic_async() {
    let (mut inner, s, mut r1) = broadcast(10);
    let mut r2 = r1.clone(&mut inner);

    send(s.broadcast(7), &mut inner).unwrap();
    assert_eq!(recv(r1.recv(), &mut inner).unwrap(), 7);
    assert_eq!(recv(r2.recv(), &mut inner).unwrap(), 7);

    // Now let's try the stream.
    let mut r3 = r1.clone(&mut inner);
    send(s.broadcast(8), &mut inner).unwrap();
    assert_eq!(next(&mut r1, &mut inner).unwrap(), 8);
    assert_eq!(next(&mut r2, &mut inner).unwrap(), 8);
    assert_eq!(next(&mut r3, &mut inner).unwrap(), 8);
}

#[test]
fn two_senders_and_two_receivers() {
    let (mut inner, s1, mut r1) = broadcast(2);
    let s2 = s1.clone(&mut inner);
    let mut r2 = r1.clone(&mut inner);

    // Send 2 messages from two different senders.
    send(s1.broadcast(7), &mut inner).unwrap();
    send(s2.broadcast(8), &mut inner).unwrap();

    // Channel is now at capacity so sending more messages will result in an error.
    assert!(s2.try_broadcast(&mut inner, 9).unwrap_err().is_full());
    assert!(s1.try_broadcast(&mut inner, 10).unwrap_err().is_full());

    assert_eq!(next(&mut r1, &mut inner).unwrap(), 7);
    assert_eq!(recv(r1.recv(), &mut inner).unwrap(), 8);
    assert_eq!(next(&mut r2, &mut inner).unwrap(), 7);
    assert_eq!(recv(r2.recv(), &mut inner).unwrap(), 8);

    // All receivers got all messages so the channel is now empty.
    assert_eq!(r1.try_recv(&mut inner), Err(async_broadcast::TryRecvError::Empty));
    assert_eq!(r2.try_recv(&mut inner), Err(async_broadcast::TryRecvError::Empty));
    assert!(s1.is_empty(&inner));

    // Drop both senders, which closes the channel.
    s1.drop(&mut inner);
    assert!(!s2.is_closed(&inner));
    s2.drop(&mut inner);

    assert_eq!(r1.try_recv(&mut inner), Err(async_broadcast::TryRecvError::Closed));
    assert_eq!(r2.try_recv(&mut inner), Err(async_broadcast::TryRecvError::Closed));
    assert_eq!(next(&mut r1, &mut inner), None);
}

#[test]
fn waiting_operations_end_with_the_channel() {
    let (mut inner, s, mut r) = broadcast(1);
    send(s.broadcast(1), &mut inner).unwrap();
    assert!(s.close(&mut inner));
    assert!(!s.close(&mut inner));

    assert_eq!(recv(r.recv(), &mut inner).unwrap(), 1);
    assert_eq!(recv(r.recv(), &mut inner), Err(async_broadcast::RecvError::Closed));
    assert_eq!(send(s.broadcast(2), &mut inner), Err(SendError::Closed(2)));
}

#[test]
fn sending_without_receivers_ends_with_an_error() {
    let (mut inner, s, r) = broadcast(1);
    assert_eq!(send(s.broadcast(1), &mut inner), Ok(None));
    r.drop(&mut inner);
    assert_eq!(send(s.broadcast(2), &mut inner), Err(SendError::Closed(2)));
}

#[test]
fn waiting_receive_reports_missed_messages() {
    let (mut inner, mut s, mut r) = broadcast(2);
    s.set_overflow(&mut inner, true);
    assert_eq!(send(s.broadcast(1), &mut inner), Ok(None));
    assert_eq!(send(s.broadcast(2), &mut inner), Ok(None));
    assert_eq!(send(s.broadcast(3), &mut inner), Ok(Some(1)));

    assert_eq!(recv(r.recv(), &mut inner), Err(async_broadcast::RecvError::Overflowed(1)));
    assert_eq!(recv(r.recv(), &mut inner), Ok(2));
    assert_eq!(recv(r.recv(), &mut inner), Ok(3));
}

#[test]
fn stream_goes_on_past_missed_messages() {
    let (mut inner, mut s, mut r) = broadcast(2);
    s.set_overflow(&mut inner, true);
    for msg in 1..6 {
        s.try_broadcast(&mut inner, msg).unwrap();
    }
    assert_eq!(next(&mut r, &mut inner), Some(4));
    assert_eq!(next(&mut r, &mut inner), Some(5));
    s.drop(&mut inner);
    assert_eq!(next(&mut r, &mut inner), None);
    assert!(r.is_terminated(&inner));
}
