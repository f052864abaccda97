use async_broadcast::{
    broadcast_with_limiter, AdjustableCapacityLimiter, CapacityLimiter, Contents, SendError, Step,
    TryRecvError, TrySendError,
};

/// A limit on the sum of all bytes held, which never lets a single message of more than `most`
/// bytes pass.
#[derive(Clone, Debug, PartialEq)]
struct ByteLimit {
    left: usize,
    most: usize,
}

#[derive(Clone, Copy, Debug, PartialEq)]
enum TooLarge {
    ForNow,
    Forever,
}

impl CapacityLimiter<Vec<u8>> for ByteLimit {
    type Error = TooLarge;

    fn try_add(&mut self, item: &Vec<u8>, contents: Contents<'_, Vec<u8>>) -> Result<(), TooLarge> {
        let mut held = 0;
        for i in 0..contents.len() {
            held += contents.get(i).unwrap().len();
        }
        assert!(contents.get(contents.len()).is_none());
        assert!(held + self.left <= 100);
        if item.len() > self.most {
            Err(TooLarge::Forever)
        } else if item.len() > self.left {
            Err(TooLarge::ForNow)
        } else {
            self.left -= item.len();
            Ok(())
        }
    }

    fn remove(&mut self, item: &Vec<u8>, _contents: Contents<'_, Vec<u8>>) {
        self.left += item.len();
    }

    fn error_is_fatal(&self, error: &TooLarge) -> bool {
        *error == TooLarge::Forever
    }

    fn is_full(&self, _contents: Contents<'_, Vec<u8>>) -> bool {
        self.left == 0
    }
}

impl AdjustableCapacityLimiter<Vec<u8>> for ByteLimit {
    type Adjustment = usize;

    fn try_adjust(
        &mut self,
        msg: &mut usize,
        _contents: Contents<'_, Vec<u8>>,
    ) -> Result<(), TooLarge> {
        // Take away as many bytes as asked for.
        if *msg > self.most {
            Err(TooLarge::Forever)
        } else if self.left < *msg {
            Err(TooLarge::ForNow)
        } else {
            self.left -= *msg;
            Ok(())
        }
    }
}

fn bytes(n: usize) -> Vec<u8> {
    vec![0; n]
}

#[test]
fn limiter_decides_what_fits() {
    let (mut inner, s, mut r) = broadcast_with_limiter(ByteLimit { left: 10, most: 8 });
    assert_eq!(s.try_broadcast(&mut inner, bytes(6)), Ok(None));
    assert_eq!(s.try_broadcast(&mut inner, bytes(2)), Ok(None));
    assert_eq!(
        s.try_broadcast(&mut inner, bytes(3)),
        Err(TrySendError::Full { msg: bytes(3), error: TooLarge::ForNow })
    );
    assert!(!s.is_full(&inner));
    assert_eq!(s.try_broadcast(&mut inner, bytes(2)), Ok(None));
    assert!(s.is_full(&inner));

    // The limiter learns of what leaves the channel.
    assert_eq!(r.try_recv(&mut inner), Ok(bytes(6)));
    assert_eq!(s.capacity_limiter(&inner), ByteLimit { left: 6, most: 8 });
    assert_eq!(r.capacity_limiter(&inner), ByteLimit { left: 6, most: 8 });
}

#[test]
fn fatal_error_rejects_a_message() {
    let (mut inner, mut s, _r) = broadcast_with_limiter(ByteLimit { left: 10, most: 8 });
    s.try_broadcast(&mut inner, bytes(5)).unwrap();
    let rejected = Err(TrySendError::Rejected { msg: bytes(9), error: TooLarge::Forever });
    assert_eq!(s.try_broadcast(&mut inner, bytes(9)), rejected);
    s.set_overflow(&mut inner, true);
    assert_eq!(s.try_broadcast(&mut inner, bytes(9)), rejected);
    assert_eq!(s.len(&inner), 1);
    assert_eq!(
        s.broadcast(bytes(9)).poll(&mut inner),
        Step::Ready(Err(SendError::Rejected { msg: bytes(9), error: TooLarge::Forever }))
    );
}

#[test]
fn message_that_does_not_fit_an_empty_channel_is_rejected() {
    let (mut inner, s, _r) = broadcast_with_limiter(ByteLimit { left: 4, most: 8 });
    assert_eq!(
        s.try_broadcast(&mut inner, bytes(5)),
        Err(TrySendError::Rejected { msg: bytes(5), error: TooLarge::ForNow })
    );
}

#[test]
fn overflow_drops_as_many_as_needed_and_hands_back_the_last() {
    let (mut inner, mut s, mut r) = broadcast_with_limiter(ByteLimit { left: 10, most: 8 });
    s.set_overflow(&mut inner, true);
    for n in [2, 3, 4] {
        s.try_broadcast(&mut inner, bytes(n)).unwrap();
    }
    assert_eq!(s.try_broadcast(&mut inner, bytes(6)), Ok(Some(bytes(3))));
    assert_eq!(s.len(&inner), 2);
    assert_eq!(r.try_recv(&mut inner), Err(TryRecvError::Overflowed(2)));
    assert_eq!(r.try_recv(&mut inner), Ok(bytes(4)));
    assert_eq!(r.try_recv(&mut inner), Ok(bytes(6)));
    assert_eq!(s.capacity_limiter(&inner).left, 10);
}

#[test]
fn overflow_may_empty_the_channel_in_vain() {
    let (mut inner, mut s, mut r) = broadcast_with_limiter(ByteLimit { left: 5, most: 8 });
    s.set_overflow(&mut inner, true);
    s.try_broadcast(&mut inner, bytes(2)).unwrap();
    s.try_broadcast(&mut inner, bytes(2)).unwrap();
    assert_eq!(
        s.try_broadcast(&mut inner, bytes(6)),
        Err(TrySendError::Rejected { msg: bytes(6), error: TooLarge::ForNow })
    );
    assert!(s.is_empty(&inner));
    assert_eq!(r.try_recv(&mut inner), Err(TryRecvError::Overflowed(2)));
    assert_eq!(r.try_recv(&mut inner), Err(TryRecvError::Empty));
}

#[test]
fn adjusting_drops_the_oldest_until_it_goes_through() {
    let (mut inner, mut s, mut r) = broadcast_with_limiter(ByteLimit { left: 10, most: 8 });
    for n in [3, 3, 3] {
        s.try_broadcast(&mut inner, bytes(n)).unwrap();
    }
    assert_eq!(inner.adjust_capacity(5), Ok(()));
    assert_eq!(s.len(&inner), 1);
    assert_eq!(s.capacity_limiter(&inner).left, 2);

    // A fatal error leaves everything as it is.
    assert_eq!(inner.adjust_capacity(9), Err(TooLarge::Forever));
    s.adjust_capacity(&mut inner, 9);
    assert_eq!(s.len(&inner), 1);

    // An adjustment that never goes through empties the channel.
    assert_eq!(inner.adjust_capacity(6), Err(TooLarge::ForNow));
    assert!(s.is_empty(&inner));
    r.adjust_capacity(&mut inner, 5);
    assert_eq!(s.capacity_limiter(&inner).left, 0);
    assert_eq!(r.try_recv(&mut inner), Err(TryRecvError::Overflowed(3)));
}

#[test]
fn leaving_receiver_tells_the_limiter() {
    let (mut inner, s, r) = broadcast_with_limiter(ByteLimit { left: 10, most: 8 });
    let mut other = r.clone(&mut inner);
    s.try_broadcast(&mut inner, bytes(4)).unwrap();
    s.try_broadcast(&mut inner, bytes(5)).unwrap();
    assert_eq!(other.try_recv(&mut inner), Ok(bytes(4)));
    assert_eq!(s.capacity_limiter(&inner).left, 1);
    r.drop(&mut inner);
    assert_eq!(s.capacity_limiter(&inner).left, 5);
    other.drop(&mut inner);
    assert_eq!(s.capacity_limiter(&inner).left, 10);
}
