//! What a consumer's stream yields for each message of a broadcast feed.
//!
//! Consumers share one broadcast feed per message type; each keeps the
//! messages its filter accepts. A consumer that falls behind loses messages:
//! the book and ticker streams report it as an error, so that the consumer
//! can start over, while the older ticker stream skips the gap.

use vstd::prelude::*;

use crate::error::AppError;
use crate::rpc::{decimal, write_decimal};

verus! {

/// What the broadcast feed hands a consumer.
#[derive(Debug, Clone)]
pub enum Delivery<T> {
    /// The next message.
    Item(T),
    /// The consumer fell behind; this many messages were dropped.
    Lagged(u64),
}

/// What to do when a consumer falls behind.
#[derive(Debug, Clone, Copy, PartialEq, Eq, Structural)]
pub enum LagPolicy {
    /// Yield an error.
    Report,
    /// Yield nothing and go on.
    Skip,
}

/// The message of the error for `n` dropped messages.
pub open spec fn lag_message(n: u64) -> Seq<char> {
    "Stream lagged, dropped "@ + decimal(n as nat) + " messages"@
}

/// The error for `n` dropped messages.
pub fn lag_error(n: u64) -> (e: AppError)
    ensures
        e matches AppError::InternalError(m) && m@ == lag_message(n),
{
    let mut msg = "Stream lagged, dropped ".to_owned();
    write_decimal(&mut msg, n);
    msg.append(" messages");
    AppError::InternalError(msg)
}

/// What a consumer's stream yields for one delivery: an item its filter
/// accepted (`accepted` is the filter's verdict on it), nothing for an item
/// the filter refused, and for a lag an error or nothing as the policy says.
pub fn deliver<T>(d: Delivery<T>, accepted: bool, policy: LagPolicy) -> (r: Option<Result<T, AppError>>)
    ensures
        match d {
            Delivery::Item(x) => if accepted {
                r == Some(Ok::<T, AppError>(x))
            } else {
                r is None
            },
            Delivery::Lagged(n) => match policy {
                LagPolicy::Skip => r is None,
                LagPolicy::Report => r matches Some(Err(AppError::InternalError(m))) && m@
                    == lag_message(n),
            },
        },
{
    match d {
        Delivery::Item(x) => if accepted {
            Some(Ok(x))
        } else {
            None
        },
        Delivery::Lagged(n) => match policy {
            LagPolicy::Skip => None,
            LagPolicy::Report => Some(Err(lag_error(n))),
        },
    }
}

} // verus!
