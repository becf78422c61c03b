use dazzle::dispatch::{
    channel_kind_of, classify, dispatch, dispatch_for_ticker_service, read_fields, starts_with_ticker,
    Dispatch, InboundFields, InboundMessage,
};

fn route(text: &str) -> Dispatch {
    dispatch(&InboundMessage::Data(text.to_string()))
}

#[test]
fn response_by_id() {
    assert_eq!(route(r#"{"jsonrpc":"2.0","id":42,"result":[]}"#), Dispatch::Response(42));
}

#[test]
fn id_wins_over_method() {
    assert_eq!(route(r#"{"id":3,"method":"subscription"}"#), Dispatch::Response(3));
}

#[test]
fn non_numeric_id_falls_through_to_method() {
    assert_eq!(route(r#"{"id":"x","method":"other"}"#), Dispatch::UnknownMethod);
}

#[test]
fn ticker_and_book_pushes() {
    assert_eq!(
        route(r#"{"method":"subscription","params":{"channel":"ticker.BTC-PERPETUAL.100ms","data":{}}}"#),
        Dispatch::Ticker
    );
    assert_eq!(
        route(r#"{"method":"subscription","params":{"channel":"book.BTC-PERPETUAL.100ms","data":{}}}"#),
        Dispatch::Book
    );
    assert_eq!(
        route(r#"{"method":"subscription","params":{"channel":"trades.BTC.100ms"}}"#),
        Dispatch::UnknownChannel
    );
    assert_eq!(route(r#"{"method":"subscription","params":{}}"#), Dispatch::UnknownChannel);
    assert_eq!(route(r#"{"method":"subscription","params":{"channel":"ticker"}}"#), Dispatch::Ticker);
}

#[test]
fn heartbeats() {
    assert_eq!(
        route(r#"{"method":"heartbeat","params":{"type":"test_request"}}"#),
        Dispatch::HeartbeatTestRequest
    );
    assert_eq!(route(r#"{"method":"heartbeat","params":{"type":"heartbeat"}}"#), Dispatch::Heartbeat);
    assert_eq!(route(r#"{"method":"heartbeat","params":{"type":"x"}}"#), Dispatch::OtherHeartbeat);
    assert_eq!(route(r#"{"method":"heartbeat"}"#), Dispatch::OtherHeartbeat);
}

#[test]
fn malformed_and_unhandled() {
    assert_eq!(route("not json"), Dispatch::Malformed);
    assert_eq!(route(r#"{"result":1}"#), Dispatch::NoMethod);
    assert_eq!(route(r#"{"method":"public/other"}"#), Dispatch::UnknownMethod);
    assert_eq!(dispatch(&InboundMessage::ConnectionLost), Dispatch::ConnectionLost);
}

#[test]
fn fields_read_from_json() {
    let f = read_fields(r#"{"method":"subscription","params":{"channel":"book.X.1","type":"t"}}"#);
    assert!(f.is_json);
    assert_eq!(f.id, None);
    assert_eq!(f.method.as_deref(), Some("subscription"));
    assert_eq!(f.channel.as_deref(), Some("book.X.1"));
    assert_eq!(f.heartbeat_type.as_deref(), Some("t"));
}

#[test]
fn classify_fields() {
    let f = InboundFields {
        is_json: true,
        id: None,
        method: Some("subscription".to_string()),
        channel: Some("book.ETH.raw".to_string()),
        heartbeat_type: None,
    };
    assert_eq!(classify(&f), Dispatch::Book);
    let g = InboundFields { is_json: false, ..f.clone() };
    assert_eq!(classify(&g), Dispatch::Malformed);
}

#[test]
fn kinds() {
    assert_eq!(channel_kind_of("ticker.A.B"), "ticker");
    assert_eq!(channel_kind_of("book"), "book");
    assert_eq!(channel_kind_of(""), "");
}

#[test]
fn ticker_service_routing() {
    let svc = |t: &str| dispatch_for_ticker_service(&InboundMessage::Data(t.to_string()));
    assert_eq!(svc(r#"{"method":"subscription","params":{"channel":"ticker.BTC.100ms"}}"#), Dispatch::Ticker);
    assert_eq!(svc(r#"{"method":"subscription","params":{"channel":"ticker"}}"#), Dispatch::UnknownChannel);
    assert_eq!(svc(r#"{"method":"subscription","params":{"channel":"book.BTC.100ms"}}"#), Dispatch::UnknownChannel);
    assert_eq!(svc(r#"{"id":7}"#), Dispatch::Response(7));
    assert!(starts_with_ticker("ticker."));
    assert!(!starts_with_ticker("ticke"));
}
