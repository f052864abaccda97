//! Broadcast channels whose capacity is a total weight of messages rather than their number.
use vstd::prelude::*;

pub mod channel;
pub mod handles;
pub mod inner;
pub mod laws;
pub mod promises;
pub mod scale;

pub use crate::weighted::handles::{weighted_broadcaster, Receiver, Recv, Send, Sender};
pub use crate::weighted::inner::Inner;
pub use crate::weighted::scale::{BoxlikeScale, Scale, Weight};
