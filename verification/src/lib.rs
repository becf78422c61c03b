//! Market-data aggregation core: fixed-point L2 order books, channel names,
//! subscription reference counting, JSON-RPC framing and the decision logic
//! of the exchange connection.

pub mod text;
pub mod utf8_text;
pub mod fixed_point;
pub mod book;
pub mod models;
pub mod book_manager;
pub mod subscriptions;
pub mod error;
pub mod channel;
pub mod channel_name;
pub mod rpc;
pub mod dispatch;
pub mod connection;
pub mod stream;
pub mod config;
