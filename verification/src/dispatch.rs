//! Routing of the messages that arrive from the exchange connection.
//!
//! A message with a numeric `id` answers a pending request. Otherwise its
//! `method` decides: a `subscription` push goes to the ticker or the book
//! feed according to the kind of its channel (the part of
//! `params.channel` before the first dot); a `heartbeat` whose
//! `params.type` is `test_request` must be answered. Everything else is
//! logged and dropped.

use vstd::prelude::*;

use crate::channel::{find_dots, lemma_first_from_is, two_dots};
use crate::text::text_eq;
use vstd::string::*;
use vstd::utf8::encode_utf8;

verus! {

/// Whether the bytes parse as one JSON value (serde_json).
pub uninterp spec fn json_parses(bytes: Seq<u8>) -> bool;

/// The unsigned integer under `key` of the JSON object in `bytes`, if the
/// bytes parse, the value is an object, the key is present and its value is
/// an integer that fits in `u64` (serde_json).
pub uninterp spec fn json_field_u64(bytes: Seq<u8>, key: Seq<char>) -> Option<u64>;

/// The string under `key` of the JSON object in `bytes` (serde_json).
pub uninterp spec fn json_field_str(bytes: Seq<u8>, key: Seq<char>) -> Option<Seq<char>>;

/// The string that the JSON pointer `pointer` designates in `bytes`
/// (serde_json).
pub uninterp spec fn json_pointer_str(bytes: Seq<u8>, pointer: Seq<char>) -> Option<Seq<char>>;

/// `serde_json::from_slice::<serde_json::Value>` succeeds. Claimed: the
/// answer depends on the bytes alone.
#[verifier::external_body]
fn parses_as_json(bytes: &[u8]) -> (r: bool)
    ensures
        r == json_parses(bytes@),
{
    serde_json::from_slice::<serde_json::Value>(bytes).is_ok()
}

/// `serde_json::from_slice`, then `Value::get(key)` and `Value::as_u64`.
/// Claimed: the result depends on the bytes and the key alone.
#[verifier::external_body]
fn field_u64(bytes: &[u8], key: &str) -> (r: Option<u64>)
    ensures
        r == json_field_u64(bytes@, key@),
{
    match serde_json::from_slice::<serde_json::Value>(bytes) {
        Ok(v) => match v.get(key) {
            Some(x) => x.as_u64(),
            None => None,
        },
        Err(_) => None,
    }
}

/// `serde_json::from_slice`, then `Value::get(key)` and `Value::as_str`.
/// Claimed: the result depends on the bytes and the key alone.
#[verifier::external_body]
fn field_str(bytes: &[u8], key: &str) -> (r: Option<String>)
    ensures
        match r {
            Some(s) => json_field_str(bytes@, key@) == Some(s@),
            None => json_field_str(bytes@, key@) is None,
        },
{
    match serde_json::from_slice::<serde_json::Value>(bytes) {
        Ok(v) => match v.get(key) {
            Some(x) => match x.as_str() {
                Some(s) => Some(s.to_string()),
                None => None,
            },
            None => None,
        },
        Err(_) => None,
    }
}

/// `serde_json::from_slice`, then `Value::pointer(pointer)` and
/// `Value::as_str`. Claimed: the result depends on the bytes and the pointer
/// alone.
#[verifier::external_body]
fn pointer_str(bytes: &[u8], pointer: &str) -> (r: Option<String>)
    ensures
        match r {
            Some(s) => json_pointer_str(bytes@, pointer@) == Some(s@),
            None => json_pointer_str(bytes@, pointer@) is None,
        },
{
    match serde_json::from_slice::<serde_json::Value>(bytes) {
        Ok(v) => match v.pointer(pointer) {
            Some(x) => match x.as_str() {
                Some(s) => Some(s.to_string()),
                None => None,
            },
            None => None,
        },
        Err(_) => None,
    }
}

/// The parts of an inbound message that decide where it goes.
#[derive(Debug, Clone)]
pub struct InboundFields {
    /// Whether the text is JSON at all.
    pub is_json: bool,
    /// The numeric `id`, present on responses.
    pub id: Option<u64>,
    /// The `method` text.
    pub method: Option<String>,
    /// `params.channel`, on subscription pushes.
    pub channel: Option<String>,
    /// `params.type`, on heartbeats.
    pub heartbeat_type: Option<String>,
}

/// Where an inbound message goes.
#[derive(Debug, Clone, Copy, PartialEq, Eq, Structural)]
pub enum Dispatch {
    /// Not JSON: dropped.
    Malformed,
    /// The response to the pending request with this id.
    Response(u64),
    /// A push of the ticker feed: its `params.data` is a ticker.
    Ticker,
    /// A push of the book feed: its `params.data` is a book message.
    Book,
    /// A push on a channel of another kind: dropped.
    UnknownChannel,
    /// The exchange tests the connection: answer with `public/test`.
    HeartbeatTestRequest,
    /// A plain heartbeat: nothing to do.
    Heartbeat,
    /// A heartbeat of another type: nothing to do.
    OtherHeartbeat,
    /// Neither an id nor a method: dropped.
    NoMethod,
    /// A method not handled here: dropped.
    UnknownMethod,
    /// The connection to the exchange was lost: tell the book subscribers.
    ConnectionLost,
}

/// A message from the connection.
#[derive(Debug, Clone)]
pub enum InboundMessage {
    /// A text frame.
    Data(String),
    /// The connection dropped; it is being re-established.
    ConnectionLost,
}

/// The kind of a channel: its text before the first dot, or all of it.
pub open spec fn channel_kind(channel: Seq<char>) -> Seq<char> {
    match two_dots(channel).0 {
        Some(a) => channel.subrange(0, a),
        None => channel,
    }
}

/// The text of an optional string.
pub open spec fn opt_text(o: Option<String>) -> Option<Seq<char>> {
    match o {
        Some(s) => Some(s@),
        None => None,
    }
}

/// Where a message goes, given whether it is JSON, its numeric id, its
/// method, its channel and its heartbeat type.
pub open spec fn dispatch_spec(
    is_json: bool,
    id: Option<u64>,
    method: Option<Seq<char>>,
    channel: Option<Seq<char>>,
    heartbeat_type: Option<Seq<char>>,
) -> Dispatch {
    if !is_json {
        Dispatch::Malformed
    } else if id is Some {
        Dispatch::Response(id->0)
    } else {
        match method {
            None => Dispatch::NoMethod,
            Some(m) => if m == "subscription"@ {
                let kind = match channel {
                    Some(c) => channel_kind(c),
                    None => Seq::empty(),
                };
                if kind == "ticker"@ {
                    Dispatch::Ticker
                } else if kind == "book"@ {
                    Dispatch::Book
                } else {
                    Dispatch::UnknownChannel
                }
            } else if m == "heartbeat"@ {
                match heartbeat_type {
                    Some(t) => if t == "test_request"@ {
                        Dispatch::HeartbeatTestRequest
                    } else if t == "heartbeat"@ {
                        Dispatch::Heartbeat
                    } else {
                        Dispatch::OtherHeartbeat
                    },
                    None => Dispatch::OtherHeartbeat,
                }
            } else {
                Dispatch::UnknownMethod
            },
        }
    }
}

/// Where a text frame goes.
pub open spec fn frame_dispatch(bytes: Seq<u8>) -> Dispatch {
    dispatch_spec(
        json_parses(bytes),
        json_field_u64(bytes, "id"@),
        json_field_str(bytes, "method"@),
        json_pointer_str(bytes, "/params/channel"@),
        json_pointer_str(bytes, "/params/type"@),
    )
}

/// The kind of a channel name.
pub fn channel_kind_of(channel: &str) -> (r: String)
    ensures
        r@ == channel_kind(channel@),
{
    let (first, _) = find_dots(channel);
    match first {
        Some(a) => channel.substring_char(0, a).to_owned(),
        None => channel.to_owned(),
    }
}

/// Routes a message by its fields.
pub fn classify(f: &InboundFields) -> (d: Dispatch)
    ensures
        d == dispatch_spec(
            f.is_json,
            f.id,
            opt_text(f.method),
            opt_text(f.channel),
            opt_text(f.heartbeat_type),
        ),
{
    if !f.is_json {
        return Dispatch::Malformed;
    }
    if let Some(id) = f.id {
        return Dispatch::Response(id);
    }
    match &f.method {
        None => Dispatch::NoMethod,
        Some(m) => {
            if text_eq(m.as_str(), "subscription") {
                let kind = match &f.channel {
                    Some(c) => channel_kind_of(c.as_str()),
                    None => String::new(),
                };
                if text_eq(kind.as_str(), "ticker") {
                    Dispatch::Ticker
                } else if text_eq(kind.as_str(), "book") {
                    Dispatch::Book
                } else {
                    Dispatch::UnknownChannel
                }
            } else if text_eq(m.as_str(), "heartbeat") {
                match &f.heartbeat_type {
                    Some(t) => {
                        if text_eq(t.as_str(), "test_request") {
                            Dispatch::HeartbeatTestRequest
                        } else if text_eq(t.as_str(), "heartbeat") {
                            Dispatch::Heartbeat
                        } else {
                            Dispatch::OtherHeartbeat
                        }
                    },
                    None => Dispatch::OtherHeartbeat,
                }
            } else {
                Dispatch::UnknownMethod
            }
        },
    }
}

/// Reads the routing fields of a text frame.
pub fn read_fields(text: &str) -> (f: InboundFields)
    ensures
        f.is_json == json_parses(text.spec_bytes()),
        f.id == json_field_u64(text.spec_bytes(), "id"@),
        opt_text(f.method) == json_field_str(text.spec_bytes(), "method"@),
        opt_text(f.channel) == json_pointer_str(text.spec_bytes(), "/params/channel"@),
        opt_text(f.heartbeat_type) == json_pointer_str(text.spec_bytes(), "/params/type"@),
{
    let bytes = text.as_bytes();
    InboundFields {
        is_json: parses_as_json(bytes),
        id: field_u64(bytes, "id"),
        method: field_str(bytes, "method"),
        channel: pointer_str(bytes, "/params/channel"),
        heartbeat_type: pointer_str(bytes, "/params/type"),
    }
}

/// Routes a message from the connection: a text frame by its JSON fields, a
/// lost connection to the book subscribers.
pub fn dispatch(msg: &InboundMessage) -> (d: Dispatch)
    ensures
        match msg {
            InboundMessage::ConnectionLost => d == Dispatch::ConnectionLost,
            InboundMessage::Data(text) => d == frame_dispatch(encode_utf8(text@)),
        },
{
    match msg {
        InboundMessage::ConnectionLost => Dispatch::ConnectionLost,
        InboundMessage::Data(text) => {
            let f = read_fields(text.as_str());
            classify(&f)
        },
    }
}

/// The channel names a ticker feed by its leading `ticker.`.
pub open spec fn is_ticker_push_channel(channel: Seq<char>) -> bool {
    channel.len() >= 7 && channel.subrange(0, 7) == "ticker."@
}

/// Where the ticker-only service sends a message: as `dispatch_spec`, except
/// that a subscription push counts as a ticker only when its channel begins
/// with `ticker.`, and every other push is dropped.
pub open spec fn ticker_service_dispatch_spec(
    is_json: bool,
    id: Option<u64>,
    method: Option<Seq<char>>,
    channel: Option<Seq<char>>,
    heartbeat_type: Option<Seq<char>>,
) -> Dispatch {
    match dispatch_spec(is_json, id, method, channel, heartbeat_type) {
        Dispatch::Ticker | Dispatch::Book | Dispatch::UnknownChannel => if channel matches Some(c)
            && is_ticker_push_channel(c) {
            Dispatch::Ticker
        } else {
            Dispatch::UnknownChannel
        },
        d => d,
    }
}

/// The ticker-only service routes every message that is not a subscription
/// push exactly as the general dispatcher does: responses, heartbeats,
/// malformed texts and other methods go the same way in both.
pub proof fn lemma_ticker_service_routes_like_dispatch(
    is_json: bool,
    id: Option<u64>,
    method: Option<Seq<char>>,
    channel: Option<Seq<char>>,
    heartbeat_type: Option<Seq<char>>,
)
    requires
        !(is_json && id is None && method == Some("subscription"@)),
    ensures
        ticker_service_dispatch_spec(is_json, id, method, channel, heartbeat_type) == dispatch_spec(
            is_json,
            id,
            method,
            channel,
            heartbeat_type,
        ),
{
}

/// A heartbeat of type `test_request` (a JSON message without an id) is
/// routed to the `public/test` answer by both routers, whatever its channel
/// field; a plain heartbeat is routed to `Heartbeat`; a response goes to the
/// request with its id.
pub proof fn lemma_heartbeats_and_responses_routed(
    id: Option<u64>,
    method: Option<Seq<char>>,
    channel: Option<Seq<char>>,
    heartbeat_type: Option<Seq<char>>,
)
    ensures
        id is None && method == Some("heartbeat"@) && heartbeat_type == Some("test_request"@) ==> {
            &&& dispatch_spec(true, id, method, channel, heartbeat_type)
                == Dispatch::HeartbeatTestRequest
            &&& ticker_service_dispatch_spec(true, id, method, channel, heartbeat_type)
                == Dispatch::HeartbeatTestRequest
        },
        id is None && method == Some("heartbeat"@) && heartbeat_type == Some("heartbeat"@) ==> {
            &&& dispatch_spec(true, id, method, channel, heartbeat_type) == Dispatch::Heartbeat
            &&& ticker_service_dispatch_spec(true, id, method, channel, heartbeat_type)
                == Dispatch::Heartbeat
        },
        id matches Some(i) ==> {
            &&& dispatch_spec(true, id, method, channel, heartbeat_type) == Dispatch::Response(i)
            &&& ticker_service_dispatch_spec(true, id, method, channel, heartbeat_type)
                == Dispatch::Response(i)
        },
{
    reveal_strlit("heartbeat");
    reveal_strlit("test_request");
    reveal_strlit("subscription");
    assert("heartbeat"@[0] != "subscription"@[0]);
    assert("heartbeat"@ != "subscription"@);
    assert("test_request"@.len() != "heartbeat"@.len());
    assert("test_request"@ != "heartbeat"@);
}

/// Subscription pushes go by their channel's kind: a channel beginning with
/// `book.` is a book push for the general dispatcher and is dropped by the
/// ticker-only service; a channel beginning with `ticker.` is a ticker push
/// for both.
pub proof fn lemma_pushes_routed_by_channel(c: Seq<char>, heartbeat_type: Option<Seq<char>>)
    ensures
        c.len() >= 5 && c.subrange(0, 5) == "book."@ ==> {
            &&& dispatch_spec(true, None, Some("subscription"@), Some(c), heartbeat_type)
                == Dispatch::Book
            &&& ticker_service_dispatch_spec(
                true,
                None,
                Some("subscription"@),
                Some(c),
                heartbeat_type,
            ) == Dispatch::UnknownChannel
        },
        c.len() >= 7 && c.subrange(0, 7) == "ticker."@ ==> {
            &&& dispatch_spec(true, None, Some("subscription"@), Some(c), heartbeat_type)
                == Dispatch::Ticker
            &&& ticker_service_dispatch_spec(
                true,
                None,
                Some("subscription"@),
                Some(c),
                heartbeat_type,
            ) == Dispatch::Ticker
        },
{
    reveal_strlit("book.");
    reveal_strlit("ticker.");
    reveal_strlit("book");
    reveal_strlit("ticker");
    if c.len() >= 5 && c.subrange(0, 5) == "book."@ {
        assert(c[4] == c.subrange(0, 5)[4]);
        assert forall|j: int| 0 <= j < 4 implies c[j] != '.' by {
            assert(c[j] == c.subrange(0, 5)[j]);
        }
        lemma_first_from_is(c, '.', 0, 4);
        assert(c.subrange(0, 4) =~= "book"@);
        assert(c[0] == c.subrange(0, 5)[0]);
        assert("book."@[0] == 'b');
        assert(c[0] == 'b');
        if c.len() >= 7 {
            assert(c.subrange(0, 7)[0] == 'b');
            assert(c.subrange(0, 7) != "ticker."@);
        }
        assert(!is_ticker_push_channel(c));
    }
    if c.len() >= 7 && c.subrange(0, 7) == "ticker."@ {
        assert(c[6] == c.subrange(0, 7)[6]);
        assert forall|j: int| 0 <= j < 6 implies c[j] != '.' by {
            assert(c[j] == c.subrange(0, 7)[j]);
        }
        lemma_first_from_is(c, '.', 0, 6);
        assert(c.subrange(0, 6) =~= "ticker"@);
    }
}

/// Whether a channel name begins with `ticker.`.
pub fn starts_with_ticker(channel: &str) -> (r: bool)
    ensures
        r == is_ticker_push_channel(channel@),
{
    let n = channel.unicode_len();
    if n < 7 {
        return false;
    }
    text_eq(channel.substring_char(0, 7), "ticker.")
}

/// Routes a message for the ticker-only service.
pub fn classify_for_ticker_service(f: &InboundFields) -> (d: Dispatch)
    ensures
        d == ticker_service_dispatch_spec(
            f.is_json,
            f.id,
            opt_text(f.method),
            opt_text(f.channel),
            opt_text(f.heartbeat_type),
        ),
{
    match classify(f) {
        Dispatch::Ticker | Dispatch::Book | Dispatch::UnknownChannel => {
            let is_ticker = match &f.channel {
                Some(c) => starts_with_ticker(c.as_str()),
                None => false,
            };
            if is_ticker {
                Dispatch::Ticker
            } else {
                Dispatch::UnknownChannel
            }
        },
        d => d,
    }
}

/// Routes a message from the connection for the ticker-only service.
pub fn dispatch_for_ticker_service(msg: &InboundMessage) -> (d: Dispatch)
    ensures
        match msg {
            InboundMessage::ConnectionLost => d == Dispatch::ConnectionLost,
            InboundMessage::Data(text) => {
                let bytes = encode_utf8(text@);
                d == ticker_service_dispatch_spec(
                    json_parses(bytes),
                    json_field_u64(bytes, "id"@),
                    json_field_str(bytes, "method"@),
                    json_pointer_str(bytes, "/params/channel"@),
                    json_pointer_str(bytes, "/params/type"@),
                )
            },
        },
{
    match msg {
        InboundMessage::ConnectionLost => Dispatch::ConnectionLost,
        InboundMessage::Data(text) => {
            let f = read_fields(text.as_str());
            classify_for_ticker_service(&f)
        },
    }
}

} // verus!
