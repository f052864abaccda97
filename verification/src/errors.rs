//! What a send or a receive operation reports when it does not go through, and the words each
//! report is shown with.
use crate::text::{write_around, write_text, written};
use std::fmt;
use vstd::prelude::*;
use vstd::string::StringExecFns;

verus! {

/// An error caused by exceeding a channel's capacity.
///
/// No further details are available.
#[derive(PartialEq, Eq, Clone, Copy, Debug)]
pub struct FullError;

impl FullError {
    /// The text shown to a user.
    pub fn message(&self) -> (text: String)
        ensures
            text@ == "channel is full"@,
    {
        "channel is full".to_string()
    }
}

/// An error returned from [`Sender::broadcast`](crate::Sender::broadcast).
#[derive(PartialEq, Eq, Clone, Copy)]
pub enum SendError<T, E = FullError> {
    /// Received because the channel is closed.
    Closed(T),
    /// A fatal capacity error occurred.
    ///
    /// At least one of the following is true:
    ///
    ///  - The error returned by the limiter was considered fatal.
    ///  - There are no elements in the channel and the limiter returned an error from its
    ///    `try_add` function.
    Rejected {
        /// The message that was not able to be sent.
        msg: T,
        /// Details about the capacity error.
        error: E,
    },
}

impl<T, E> SendError<T, E> {
    /// The message that could not be sent.
    pub open spec fn unsent(self) -> T {
        match self {
            SendError::Closed(msg) => msg,
            SendError::Rejected { msg, .. } => msg,
        }
    }

    /// The text shown to a user, where `error` is the text of the capacity error.
    pub open spec fn shown(self, error: Seq<char>) -> Seq<char> {
        match self {
            SendError::Closed(_) => "sending into a closed channel"@,
            SendError::Rejected { .. } => "channel capacity error: "@ + error,
        }
    }

    /// The text shown to a programmer, where `error` is that text of the capacity error.
    pub open spec fn debug_shown(self, error: Seq<char>) -> Seq<char> {
        match self {
            SendError::Closed(_) => "SendError::Closed(..)"@,
            SendError::Rejected { .. } => "SendError::Rejected("@ + error + ")"@,
        }
    }

    /// Unwraps the message that couldn't be sent.
    pub fn into_inner(self) -> (msg: T)
        ensures
            msg == self.unsent(),
    {
        match self {
            SendError::Closed(msg) => msg,
            SendError::Rejected { msg, .. } => msg,
        }
    }

    /// The capacity error behind this one, if there is one.
    pub fn source(&self) -> (error: Option<&E>)
        ensures
            error == (match *self {
                SendError::Rejected { error, .. } => Some(&error),
                SendError::Closed(_) => None,
            }),
    {
        match self {
            SendError::Rejected { error, .. } => Some(error),
            SendError::Closed(_) => None,
        }
    }

    /// The text shown to a user. `error` is the text of the capacity error, which is only used
    /// where there is one.
    pub fn message(&self, error: &str) -> (text: String)
        ensures
            text@ == self.shown(error@),
    {
        match self {
            SendError::Closed(_) => "sending into a closed channel".to_string(),
            SendError::Rejected { .. } => concat("channel capacity error: ", error),
        }
    }

    /// The text shown to a programmer. It never shows the message. `error` is the text of the
    /// capacity error, which is only used where there is one.
    pub fn debug_message(&self, error: &str) -> (text: String)
        ensures
            text@ == self.debug_shown(error@),
    {
        match self {
            SendError::Closed(_) => "SendError::Closed(..)".to_string(),
            SendError::Rejected { .. } => {
                concat(concat("SendError::Rejected(", error).as_str(), ")")
            },
        }
    }
}

impl<T, E: fmt::Debug> fmt::Debug for SendError<T, E> {
    /// Writes the text shown to a programmer, which never shows the message.
    fn fmt(&self, f: &mut fmt::Formatter<'_>) -> (result: fmt::Result)
        ensures
            result is Ok ==> exists|error: Seq<char>|
                written(*final(f)) == written(*old(f)) + #[trigger] self.debug_shown(error),
    {
        match self {
            SendError::Closed(_) => {
                let result = write_text(f, "SendError::Closed(..)");
                assert(result is Ok ==> written(*f) == written(*old(f)) + self.debug_shown(
                    Seq::empty(),
                ));
                result
            },
            SendError::Rejected { error, .. } => {
                let result = write_around(f, "SendError::Rejected(", error, ")");
                proof {
                    if result is Ok {
                        let shown = choose|shown: Seq<char>|
                            written(*f) == written(*old(f)) + #[trigger] (
                            "SendError::Rejected("@ + shown + ")"@);
                        assert(written(*f) == written(*old(f)) + self.debug_shown(shown));
                    }
                }
                result
            },
        }
    }
}

/// An error returned from [`Sender::try_broadcast`](crate::Sender::try_broadcast).
#[derive(PartialEq, Eq, Clone, Copy)]
pub enum TrySendError<T, E = FullError> {
    /// The channel is full but not closed.
    Full {
        /// The message that did not fit.
        msg: T,
        /// Details about the capacity error.
        error: E,
    },
    /// The message was rejected; retrying will not help.
    ///
    /// At least one of the following is true:
    ///
    ///  - The error returned by the limiter was considered fatal.
    ///  - There are no elements in the channel and the limiter returned an error from its
    ///    `try_add` function.
    Rejected {
        /// The message that did not fit.
        msg: T,
        /// Details about the error
        error: E,
    },
    /// The channel is closed.
    Closed(T),
    /// There are currently no active receivers, only inactive ones.
    Inactive(T),
}

impl<T, E> TrySendError<T, E> {
    /// The message that could not be sent.
    pub open spec fn unsent(self) -> T {
        match self {
            TrySendError::Full { msg, .. } => msg,
            TrySendError::Rejected { msg, .. } => msg,
            TrySendError::Closed(msg) => msg,
            TrySendError::Inactive(msg) => msg,
        }
    }

    /// Whether a later attempt at the same send may go through.
    pub open spec fn retryable(self) -> bool {
        self is Full || self is Inactive
    }

    /// What a waiting send makes of this error: the message to try again with, or the error it
    /// ends with.
    pub open spec fn send_error(self) -> Result<T, SendError<T, E>> {
        match self {
            TrySendError::Full { msg, .. } => Ok(msg),
            TrySendError::Rejected { msg, error } => Err(SendError::Rejected { msg, error }),
            TrySendError::Closed(msg) => Err(SendError::Closed(msg)),
            TrySendError::Inactive(msg) => Ok(msg),
        }
    }

    /// The text shown to a user, where `error` is the text of the capacity error.
    pub open spec fn shown(self, error: Seq<char>) -> Seq<char> {
        match self {
            TrySendError::Full { .. } => "channel capacity error: "@ + error,
            TrySendError::Rejected { .. } => "channel rejected message: "@ + error,
            TrySendError::Closed(_) => "sending into a closed channel"@,
            TrySendError::Inactive(_) => "sending into the void (no active receivers)"@,
        }
    }

    /// The text shown to a programmer, where `error` is that text of the capacity error.
    pub open spec fn debug_shown(self, error: Seq<char>) -> Seq<char> {
        match self {
            TrySendError::Full { .. } => "Full("@ + error + ")"@,
            TrySendError::Rejected { .. } => "Rejected("@ + error + ")"@,
            TrySendError::Closed(_) => "Closed(..)"@,
            TrySendError::Inactive(_) => "Inactive(..)"@,
        }
    }

    /// Unwraps the message that couldn't be sent.
    pub fn into_inner(self) -> (msg: T)
        ensures
            msg == self.unsent(),
    {
        match self {
            TrySendError::Full { msg, .. } => msg,
            TrySendError::Rejected { msg, .. } => msg,
            TrySendError::Closed(t) => t,
            TrySendError::Inactive(t) => t,
        }
    }

    /// Returns `true` if the channel is full but not closed.
    pub fn is_full(&self) -> (answer: bool)
        ensures
            answer == (self is Full || self is Rejected),
    {
        matches!(self, TrySendError::Full { .. } | TrySendError::Rejected { .. })
    }

    /// Returns `true` if retrying the send might succeed later.
    ///
    /// Prefer using [`Sender::broadcast`](crate::Sender::broadcast) if you plan to retry the
    /// operation.
    pub fn can_retry(&self) -> (answer: bool)
        ensures
            answer == self.retryable(),
    {
        matches!(self, TrySendError::Full { .. } | TrySendError::Inactive(_))
    }

    /// Returns `true` if the channel is closed.
    pub fn is_closed(&self) -> (answer: bool)
        ensures
            answer == (self is Closed),
    {
        matches!(self, TrySendError::Closed(_))
    }

    /// Returns `true` if the channel is inactive.
    pub fn is_disconnected(&self) -> (answer: bool)
        ensures
            answer == (self is Inactive),
    {
        matches!(self, TrySendError::Inactive(_))
    }

    /// The message to try again with, where a later attempt may go through; otherwise the error
    /// that a waiting send ends with.
    pub fn map_send_error(self) -> (outcome: Result<T, SendError<T, E>>)
        ensures
            outcome == self.send_error(),
    {
        match self {
            TrySendError::Full { msg, .. } => Ok(msg),
            TrySendError::Rejected { msg, error } => Err(SendError::Rejected { msg, error }),
            TrySendError::Closed(msg) => Err(SendError::Closed(msg)),
            TrySendError::Inactive(msg) => Ok(msg),
        }
    }

    /// The capacity error behind this one, if there is one.
    pub fn source(&self) -> (error: Option<&E>)
        ensures
            error == (match *self {
                TrySendError::Full { error, .. } => Some(&error),
                TrySendError::Rejected { error, .. } => Some(&error),
                TrySendError::Closed(_) => None,
                TrySendError::Inactive(_) => None,
            }),
    {
        match self {
            TrySendError::Full { error, .. } => Some(error),
            TrySendError::Rejected { error, .. } => Some(error),
            TrySendError::Closed(_) => None,
            TrySendError::Inactive(_) => None,
        }
    }

    /// The text shown to a user. `error` is the text of the capacity error, which is only used
    /// where there is one.
    pub fn message(&self, error: &str) -> (text: String)
        ensures
            text@ == self.shown(error@),
    {
        match self {
            TrySendError::Full { .. } => concat("channel capacity error: ", error),
            TrySendError::Rejected { .. } => concat("channel rejected message: ", error),
            TrySendError::Closed(_) => "sending into a closed channel".to_string(),
            TrySendError::Inactive(_) => "sending into the void (no active receivers)".to_string(),
        }
    }

    /// The text shown to a programmer. It never shows the message. `error` is the text of the
    /// capacity error, which is only used where there is one.
    pub fn debug_message(&self, error: &str) -> (text: String)
        ensures
            text@ == self.debug_shown(error@),
    {
        match self {
            TrySendError::Full { .. } => concat(concat("Full(", error).as_str(), ")"),
            TrySendError::Rejected { .. } => concat(concat("Rejected(", error).as_str(), ")"),
            TrySendError::Closed(_) => "Closed(..)".to_string(),
            TrySendError::Inactive(_) => "Inactive(..)".to_string(),
        }
    }
}

impl<T, E: fmt::Debug> fmt::Debug for TrySendError<T, E> {
    /// Writes the text shown to a programmer, which never shows the message.
    fn fmt(&self, f: &mut fmt::Formatter<'_>) -> (result: fmt::Result)
        ensures
            result is Ok ==> exists|error: Seq<char>|
                written(*final(f)) == written(*old(f)) + #[trigger] self.debug_shown(error),
    {
        match self {
            TrySendError::Full { error, .. } => {
                let result = write_around(f, "Full(", error, ")");
                proof {
                    if result is Ok {
                        let shown = choose|shown: Seq<char>|
                            written(*f) == written(*old(f)) + #[trigger] ("Full("@ + shown
                                + ")"@);
                        assert(written(*f) == written(*old(f)) + self.debug_shown(shown));
                    }
                }
                result
            },
            TrySendError::Rejected { error, .. } => {
                let result = write_around(f, "Rejected(", error, ")");
                proof {
                    if result is Ok {
                        let shown = choose|shown: Seq<char>|
                            written(*f) == written(*old(f)) + #[trigger] ("Rejected("@ + shown
                                + ")"@);
                        assert(written(*f) == written(*old(f)) + self.debug_shown(shown));
                    }
                }
                result
            },
            TrySendError::Closed(_) => {
                let result = write_text(f, "Closed(..)");
                assert(result is Ok ==> written(*f) == written(*old(f)) + self.debug_shown(
                    Seq::empty(),
                ));
                result
            },
            TrySendError::Inactive(_) => {
                let result = write_text(f, "Inactive(..)");
                assert(result is Ok ==> written(*f) == written(*old(f)) + self.debug_shown(
                    Seq::empty(),
                ));
                result
            },
        }
    }
}

/// An error returned from [`Receiver::recv`](crate::Receiver::recv).
#[derive(PartialEq, Eq, Clone, Copy, Debug)]
pub enum RecvError {
    /// The channel has overflowed since the last element was seen.  Future recv operations will
    /// succeed, but some messages have been skipped.
    ///
    /// Contains the number of messages missed.
    Overflowed(u64),
    /// The channel is empty and closed.
    Closed,
}

impl RecvError {
    /// The text shown to a user.
    pub fn message(&self) -> (text: String)
        ensures
            text@ == (match *self {
                RecvError::Overflowed(n) => "receiving skipped "@ + decimal(n as nat)
                    + " messages"@,
                RecvError::Closed => "receiving from an empty and closed channel"@,
            }),
    {
        match self {
            RecvError::Overflowed(n) => {
                let digits = decimal_string(*n);
                concat(concat("receiving skipped ", digits.as_str()).as_str(), " messages")
            },
            RecvError::Closed => "receiving from an empty and closed channel".to_string(),
        }
    }
}

/// An error returned from [`Receiver::try_recv`](crate::Receiver::try_recv).
#[derive(PartialEq, Eq, Clone, Copy, Debug)]
pub enum TryRecvError {
    /// The channel has overflowed since the last element was seen.  Future recv operations will
    /// succeed, but some messages have been skipped.
    Overflowed(u64),
    /// The channel is empty but not closed.
    Empty,
    /// The channel is empty and closed.
    Closed,
}

impl TryRecvError {
    /// Returns `true` if the channel is empty but not closed.
    pub fn is_empty(&self) -> (answer: bool)
        ensures
            answer == (self is Empty),
    {
        match self {
            TryRecvError::Empty => true,
            TryRecvError::Closed => false,
            TryRecvError::Overflowed(_) => false,
        }
    }

    /// Returns `true` if the channel is empty and closed.
    pub fn is_closed(&self) -> (answer: bool)
        ensures
            answer == (self is Closed),
    {
        match self {
            TryRecvError::Empty => false,
            TryRecvError::Closed => true,
            TryRecvError::Overflowed(_) => false,
        }
    }

    /// Returns `true` if this error indicates the receiver missed messages.
    pub fn is_overflowed(&self) -> (answer: bool)
        ensures
            answer == (self is Overflowed),
    {
        match self {
            TryRecvError::Empty => false,
            TryRecvError::Closed => false,
            TryRecvError::Overflowed(_) => true,
        }
    }

    /// The text shown to a user.
    pub fn message(&self) -> (text: String)
        ensures
            text@ == (match *self {
                TryRecvError::Empty => "receiving from an empty channel"@,
                TryRecvError::Closed => "receiving from an empty and closed channel"@,
                TryRecvError::Overflowed(n) => "receiving operation observed "@ + decimal(n as nat)
                    + " lost messages"@,
            }),
    {
        match self {
            TryRecvError::Empty => "receiving from an empty channel".to_string(),
            TryRecvError::Closed => "receiving from an empty and closed channel".to_string(),
            TryRecvError::Overflowed(n) => {
                let digits = decimal_string(*n);
                concat(
                    concat("receiving operation observed ", digits.as_str()).as_str(),
                    " lost messages",
                )
            },
        }
    }
}

/// The decimal digit that stands for `n`.
pub open spec fn digit(n: nat) -> char
    recommends
        n < 10,
{
    ('0' as nat + n) as char
}

/// How `n` is written in decimal, without leading zeros.
pub open spec fn decimal(n: nat) -> Seq<char>
    decreases n,
{
    if n < 10 {
        seq![digit(n)]
    } else {
        decimal(n / 10).push(digit(n % 10))
    }
}

fn digit_str(n: u64) -> (text: &'static str)
    requires
        n < 10,
    ensures
        text@ == seq![digit(n as nat)],
{
    proof {
        reveal_strlit("0");
        reveal_strlit("1");
        reveal_strlit("2");
        reveal_strlit("3");
        reveal_strlit("4");
        reveal_strlit("5");
        reveal_strlit("6");
        reveal_strlit("7");
        reveal_strlit("8");
        reveal_strlit("9");
    }
    match n {
        0 => "0",
        1 => "1",
        2 => "2",
        3 => "3",
        4 => "4",
        5 => "5",
        6 => "6",
        7 => "7",
        8 => "8",
        _ => "9",
    }
}

fn decimal_string(n: u64) -> (text: String)
    ensures
        text@ == decimal(n as nat),
    decreases n,
{
    if n < 10 {
        digit_str(n).to_string()
    } else {
        let mut text = decimal_string(n / 10);
        text.append(digit_str(n % 10));
        text
    }
}

fn concat(first: &str, second: &str) -> (text: String)
    ensures
        text@ == first@ + second@,
{
    let mut text = first.to_string();
    text.append(second);
    text
}

} // verus!
