//! What holds of the errors and of their texts.
use crate::errors::{decimal, FullError, RecvError, SendError, TryRecvError, TrySendError};
use crate::limiter::Contents;
use vstd::prelude::*;

verus! {

/// The number that a text of decimal digits stands for.
pub open spec fn number(text: Seq<char>) -> nat
    decreases text.len(),
{
    if text.len() == 0 {
        0
    } else {
        (number(text.drop_last()) * 10 + (text.last() as nat - '0' as nat)) as nat
    }
}

/// A number that is written in decimal can be read back: the text consists of digits, stands for
/// that number, and has no leading zero unless it is a single digit.
pub proof fn law_decimal_reads_back(n: nat)
    ensures
        number(decimal(n)) == n,
        decimal(n).len() > 0,
        forall|i: int| 0 <= i < decimal(n).len() ==> '0' <= #[trigger] decimal(n)[i] <= '9',
        decimal(n).len() > 1 ==> decimal(n)[0] != '0',
        n > 0 ==> decimal(n)[0] != '0',
    decreases n,
{
    if n < 10 {
        assert(decimal(n).drop_last() =~= Seq::<char>::empty());
        assert(number(Seq::<char>::empty()) == 0);
    } else {
        law_decimal_reads_back(n / 10);
        assert(decimal(n).drop_last() =~= decimal(n / 10));
        assert forall|i: int| 0 <= i < decimal(n).len() implies '0' <= #[trigger] decimal(n)[i]
            <= '9' by {
            if i < decimal(n / 10).len() {
                assert(decimal(n)[i] == decimal(n / 10)[i]);
            }
        }
    }
}

/// The message that could not be sent can be taken out of the error, and the capacity error behind
/// it is told exactly where there is one.
pub proof fn law_send_error_holds<T, E>(
    error: SendError<T, E>,
    msg: T,
    cause: Option<&E>,
)
    requires
        call_ensures(SendError::<T, E>::into_inner, (error,), msg),
        call_ensures(SendError::<T, E>::source, (&error,), cause),
    ensures
        match error {
            SendError::Closed(m) => msg == m && cause is None,
            SendError::Rejected { msg: m, error: e } => msg == m && cause == Some(&e),
        },
{
}

/// The texts that are shown for an error of a waiting send, which never show the message.
pub proof fn law_send_error_texts<T, E>(
    error: SendError<T, E>,
    cause: &str,
    message: String,
    debug: String,
)
    requires
        call_ensures(SendError::<T, E>::message, (&error, cause), message),
        call_ensures(SendError::<T, E>::debug_message, (&error, cause), debug),
    ensures
        match error {
            SendError::Closed(_) => {
                &&& message@ == "sending into a closed channel"@
                &&& debug@ == "SendError::Closed(..)"@
            },
            SendError::Rejected { .. } => {
                &&& message@ == "channel capacity error: "@ + cause@
                &&& debug@ == "SendError::Rejected("@ + cause@ + ")"@
            },
        },
{
}

/// The same of an error of an attempt to send. A later attempt may go through exactly where the
/// channel was full for now or had no active receiver; then a waiting send goes on with the
/// message, and otherwise it ends with an error of the same kind, which holds it.
pub proof fn law_try_send_error_holds<T, E>(
    error: TrySendError<T, E>,
    msg: T,
    cause: Option<&E>,
    outcome: Result<T, SendError<T, E>>,
    full: bool,
    retry: bool,
    closed: bool,
    disconnected: bool,
)
    requires
        call_ensures(TrySendError::<T, E>::into_inner, (error,), msg),
        call_ensures(TrySendError::<T, E>::source, (&error,), cause),
        call_ensures(TrySendError::<T, E>::map_send_error, (error,), outcome),
        call_ensures(TrySendError::<T, E>::is_full, (&error,), full),
        call_ensures(TrySendError::<T, E>::can_retry, (&error,), retry),
        call_ensures(TrySendError::<T, E>::is_closed, (&error,), closed),
        call_ensures(TrySendError::<T, E>::is_disconnected, (&error,), disconnected),
    ensures
        retry <==> outcome is Ok,
        match error {
            TrySendError::Full { msg: m, error: e } => {
                &&& msg == m && cause == Some(&e)
                &&& outcome == Ok::<T, SendError<T, E>>(m)
                &&& full && !closed && !disconnected
            },
            TrySendError::Rejected { msg: m, error: e } => {
                &&& msg == m && cause == Some(&e)
                &&& outcome == Err::<T, _>(SendError::Rejected { msg: m, error: e })
                &&& full && !closed && !disconnected
            },
            TrySendError::Closed(m) => {
                &&& msg == m && cause is None
                &&& outcome == Err::<T, _>(SendError::<T, E>::Closed(m))
                &&& !full && closed && !disconnected
            },
            TrySendError::Inactive(m) => {
                &&& msg == m && cause is None
                &&& outcome == Ok::<T, SendError<T, E>>(m)
                &&& !full && !closed && disconnected
            },
        },
{
}

/// The texts that are shown for an error of an attempt to send, which never show the message.
pub proof fn law_try_send_error_texts<T, E>(
    error: TrySendError<T, E>,
    cause: &str,
    message: String,
    debug: String,
)
    requires
        call_ensures(TrySendError::<T, E>::message, (&error, cause), message),
        call_ensures(TrySendError::<T, E>::debug_message, (&error, cause), debug),
    ensures
        match error {
            TrySendError::Full { .. } => {
                &&& message@ == "channel capacity error: "@ + cause@
                &&& debug@ == "Full("@ + cause@ + ")"@
            },
            TrySendError::Rejected { .. } => {
                &&& message@ == "channel rejected message: "@ + cause@
                &&& debug@ == "Rejected("@ + cause@ + ")"@
            },
            TrySendError::Closed(_) => {
                &&& message@ == "sending into a closed channel"@
                &&& debug@ == "Closed(..)"@
            },
            TrySendError::Inactive(_) => {
                &&& message@ == "sending into the void (no active receivers)"@
                &&& debug@ == "Inactive(..)"@
            },
        },
{
}

/// What the debug format of the errors writes names the kind of the error and what is shown for the
/// capacity error, if there is one, and depends on nothing else, least of all on the message.
pub proof fn law_debug_formats<T, E>(
    a: SendError<T, E>,
    b: TrySendError<T, E>,
    cause: Seq<char>,
)
    ensures
        a.debug_shown(cause) == (match a {
            SendError::Closed(_) => "SendError::Closed(..)"@,
            SendError::Rejected { .. } => "SendError::Rejected("@ + cause + ")"@,
        }),
        b.debug_shown(cause) == (match b {
            TrySendError::Full { .. } => "Full("@ + cause + ")"@,
            TrySendError::Rejected { .. } => "Rejected("@ + cause + ")"@,
            TrySendError::Closed(_) => "Closed(..)"@,
            TrySendError::Inactive(_) => "Inactive(..)"@,
        }),
{
}

/// The errors of an attempt to receive are told apart, and their texts name the number of lost
/// messages in decimal.
pub proof fn law_try_recv_error(
    error: TryRecvError,
    empty: bool,
    closed: bool,
    overflowed: bool,
    message: String,
)
    requires
        call_ensures(TryRecvError::is_empty, (&error,), empty),
        call_ensures(TryRecvError::is_closed, (&error,), closed),
        call_ensures(TryRecvError::is_overflowed, (&error,), overflowed),
        call_ensures(TryRecvError::message, (&error,), message),
    ensures
        match error {
            TryRecvError::Overflowed(n) => {
                &&& !empty && !closed && overflowed
                &&& exists|digits: Seq<char>|
                    {
                        &&& message@ == "receiving operation observed "@ + digits
                            + " lost messages"@
                        &&& #[trigger] number(digits) == n
                        &&& digits.len() > 0
                        &&& digits.len() > 1 ==> digits[0] != '0'
                    }
            },
            TryRecvError::Empty => {
                &&& empty && !closed && !overflowed
                &&& message@ == "receiving from an empty channel"@
            },
            TryRecvError::Closed => {
                &&& !empty && closed && !overflowed
                &&& message@ == "receiving from an empty and closed channel"@
            },
        },
{
    if let TryRecvError::Overflowed(n) = error {
        law_decimal_reads_back(n as nat);
        assert(number(decimal(n as nat)) == n);
    }
}

/// The texts of the errors of a waiting receive, and of a capacity error without details.
pub proof fn law_recv_error(error: RecvError, message: String, full: FullError, text: String)
    requires
        call_ensures(RecvError::message, (&error,), message),
        call_ensures(FullError::message, (&full,), text),
    ensures
        text@ == "channel is full"@,
        match error {
            RecvError::Overflowed(n) => exists|digits: Seq<char>|
                {
                    &&& message@ == "receiving skipped "@ + digits + " messages"@
                    &&& #[trigger] number(digits) == n
                    &&& digits.len() > 0
                    &&& digits.len() > 1 ==> digits[0] != '0'
                },
            RecvError::Closed => message@ == "receiving from an empty and closed channel"@,
        },
{
    if let RecvError::Overflowed(n) = error {
        law_decimal_reads_back(n as nat);
        assert(number(decimal(n as nat)) == n);
    }
}

/// What a limiter gets to see of a queue are its messages, oldest first, and all of them.
pub proof fn law_contents_are_the_messages<'a, T>(
    queue: &'a std::collections::VecDeque<(T, usize)>,
    contents: Contents<'a, T>,
    n: usize,
    i: usize,
    item: Option<&'a T>,
)
    requires
        call_ensures(Contents::<T>::new, (queue,), contents),
        call_ensures(Contents::<T>::len, (&contents,), n),
        call_ensures(Contents::<T>::get, (&contents, i), item),
    ensures
        n == queue@.len(),
        i < queue@.len() ==> item == Some(&queue@[i as int].0),
        i >= queue@.len() ==> item is None,
{
}

} // verus!
