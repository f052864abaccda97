use async_broadcast::{FullError, RecvError, SendError, TryRecvError, TrySendError};

#[test]
fn texts_shown_to_users() {
    assert_eq!(FullError.message(), "channel is full");

    let full = FullError.message();
    let closed: SendError<u8> = SendError::Closed(1);
    let rejected = SendError::Rejected { msg: 1, error: FullError };
    assert_eq!(closed.message(&full), "sending into a closed channel");
    assert_eq!(rejected.message(&full), "channel capacity error: channel is full");

    let try_full = TrySendError::Full { msg: 1, error: FullError };
    let try_rejected = TrySendError::Rejected { msg: 1, error: FullError };
    let try_closed: TrySendError<u8> = TrySendError::Closed(1);
    let inactive: TrySendError<u8> = TrySendError::Inactive(1);
    assert_eq!(try_full.message(&full), "channel capacity error: channel is full");
    assert_eq!(try_rejected.message(&full), "channel rejected message: channel is full");
    assert_eq!(try_closed.message(&full), "sending into a closed channel");
    assert_eq!(inactive.message(&full), "sending into the void (no active receivers)");

    assert_eq!(RecvError::Overflowed(12).message(), "receiving skipped 12 messages");
    assert_eq!(RecvError::Closed.message(), "receiving from an empty and closed channel");

    assert_eq!(TryRecvError::Empty.message(), "receiving from an empty channel");
    assert_eq!(TryRecvError::Closed.message(), "receiving from an empty and closed channel");
    assert_eq!(
        TryRecvError::Overflowed(305).message(),
        "receiving operation observed 305 lost messages"
    );
}

#[test]
fn numbers_are_written_in_decimal() {
    assert_eq!(RecvError::Overflowed(0).message(), "receiving skipped 0 messages");
    assert_eq!(RecvError::Overflowed(9).message(), "receiving skipped 9 messages");
    assert_eq!(RecvError::Overflowed(10).message(), "receiving skipped 10 messages");
    assert_eq!(
        RecvError::Overflowed(1234567890).message(),
        "receiving skipped 1234567890 messages"
    );
    assert_eq!(
        RecvError::Overflowed(u64::MAX).message(),
        "receiving skipped 18446744073709551615 messages"
    );
}

#[test]
fn texts_shown_to_programmers() {
    let closed: SendError<u8> = SendError::Closed(1);
    let rejected = SendError::Rejected { msg: 1, error: FullError };
    assert_eq!(closed.debug_message("FullError"), "SendError::Closed(..)");
    assert_eq!(rejected.debug_message("FullError"), "SendError::Rejected(FullError)");

    let full = TrySendError::Full { msg: 1, error: FullError };
    let try_rejected = TrySendError::Rejected { msg: 1, error: FullError };
    let try_closed: TrySendError<u8> = TrySendError::Closed(1);
    let inactive: TrySendError<u8> = TrySendError::Inactive(1);
    assert_eq!(full.debug_message("FullError"), "Full(FullError)");
    assert_eq!(try_rejected.debug_message("FullError"), "Rejected(FullError)");
    assert_eq!(try_closed.debug_message("FullError"), "Closed(..)");
    assert_eq!(inactive.debug_message("FullError"), "Inactive(..)");
}

#[test]
fn debug_format_never_shows_the_message() {
    /// A message that cannot be shown at all.
    #[derive(Clone, Copy)]
    struct Secret;

    let closed: SendError<Secret> = SendError::Closed(Secret);
    let rejected = SendError::Rejected { msg: Secret, error: FullError };
    assert_eq!(format!("{:?}", closed), "SendError::Closed(..)");
    assert_eq!(format!("{:?}", rejected), "SendError::Rejected(FullError)");
    assert_eq!(format!("{:#?}", rejected), "SendError::Rejected(FullError)");

    let full = TrySendError::Full { msg: Secret, error: Some(7) };
    let try_rejected = TrySendError::Rejected { msg: Secret, error: Some(7) };
    let try_closed: TrySendError<Secret> = TrySendError::Closed(Secret);
    let inactive: TrySendError<Secret> = TrySendError::Inactive(Secret);
    assert_eq!(format!("{:?}", full), "Full(Some(7))");
    assert_eq!(format!("{:#?}", full), "Full(Some(7))");
    assert_eq!(format!("{:?}", try_rejected), "Rejected(Some(7))");
    assert_eq!(format!("{:?}", try_closed), "Closed(..)");
    assert_eq!(format!("{:?}", inactive), "Inactive(..)");
}

#[test]
fn errors_hold_the_message_and_the_cause() {
    let closed: SendError<u8> = SendError::Closed(1);
    let rejected = SendError::Rejected { msg: 2u8, error: FullError };
    assert_eq!(closed.source(), None);
    assert_eq!(rejected.source(), Some(&FullError));
    assert_eq!(closed.into_inner(), 1);
    assert_eq!(rejected.into_inner(), 2);

    let full = TrySendError::Full { msg: 3u8, error: FullError };
    let try_rejected = TrySendError::Rejected { msg: 4u8, error: FullError };
    let try_closed: TrySendError<u8> = TrySendError::Closed(5);
    let inactive: TrySendError<u8> = TrySendError::Inactive(6);
    assert_eq!(full.source(), Some(&FullError));
    assert_eq!(try_rejected.source(), Some(&FullError));
    assert_eq!(try_closed.source(), None);
    assert_eq!(inactive.source(), None);
    assert_eq!(full.into_inner(), 3);
    assert_eq!(try_rejected.into_inner(), 4);
    assert_eq!(try_closed.into_inner(), 5);
    assert_eq!(inactive.into_inner(), 6);
}

#[test]
fn try_send_errors_are_told_apart() {
    let full = TrySendError::Full { msg: 1, error: FullError };
    let rejected = TrySendError::Rejected { msg: 1, error: FullError };
    let closed: TrySendError<i32> = TrySendError::Closed(1);
    let inactive: TrySendError<i32> = TrySendError::Inactive(1);
    let all = [full, rejected, closed, inactive];

    assert_eq!(all.map(|e| e.is_full()), [true, true, false, false]);
    assert_eq!(all.map(|e| e.can_retry()), [true, false, false, true]);
    assert_eq!(all.map(|e| e.is_closed()), [false, false, true, false]);
    assert_eq!(all.map(|e| e.is_disconnected()), [false, false, false, true]);
}

#[test]
fn waiting_sends_go_on_after_errors_that_may_pass() {
    let full = TrySendError::Full { msg: 1, error: FullError };
    let rejected = TrySendError::Rejected { msg: 2, error: FullError };
    let closed: TrySendError<i32> = TrySendError::Closed(3);
    let inactive: TrySendError<i32> = TrySendError::Inactive(4);

    assert_eq!(full.map_send_error(), Ok(1));
    assert_eq!(rejected.map_send_error(), Err(SendError::Rejected { msg: 2, error: FullError }));
    assert_eq!(closed.map_send_error(), Err(SendError::Closed(3)));
    assert_eq!(inactive.map_send_error(), Ok(4));
}

#[test]
fn try_recv_errors_are_told_apart() {
    let all = [TryRecvError::Empty, TryRecvError::Closed, TryRecvError::Overflowed(1)];
    assert_eq!(all.map(|e| e.is_empty()), [true, false, false]);
    assert_eq!(all.map(|e| e.is_closed()), [false, true, false]);
    assert_eq!(all.map(|e| e.is_overflowed()), [false, false, true]);
}
