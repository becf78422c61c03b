//! Messages of the exchange's market-data feed, with prices and amounts in
//! fixed point.

use vstd::prelude::*;

use crate::book::{Price, Quantity};

verus! {

/// Whether a book message is a full snapshot or a change to apply.
#[derive(Debug, Clone, Copy, PartialEq, Eq, Structural)]
pub enum BookUpdateType {
    Snapshot,
    Change,
}

/// One price level of a book message.
#[derive(Debug, Clone)]
pub struct BookLevel {
    /// `"new"`, `"change"` or `"delete"`.
    pub action: String,
    pub price: Price,
    pub amount: Quantity,
}

/// A book message: a snapshot of an instrument's book or a change to it.
#[derive(Debug, Clone)]
pub struct OrderBookUpdate {
    pub instrument_name: String,
    pub timestamp: u64,
    pub change_id: u64,
    /// The change id this change follows; absent on a snapshot.
    pub prev_change_id: Option<u64>,
    pub update_type: BookUpdateType,
    pub bids: Vec<BookLevel>,
    pub asks: Vec<BookLevel>,
}

/// What the feed hands to a book subscription: a book message, or notice
/// that the connection to the exchange was lost.
#[derive(Debug, Clone)]
pub enum OrderBookUpdateMessage {
    Data(OrderBookUpdate),
    ConnectionLost,
}

/// A response of the exchange to the request with `id`.
#[derive(Debug, Clone)]
pub struct Response<T> {
    pub id: u64,
    pub result: T,
}

} // verus!
