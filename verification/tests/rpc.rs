use dazzle::channel_name::ChannelName;
use dazzle::connection::heartbeat_request;
use dazzle::rpc::{write_decimal, write_json_string, ParamValue, Request};

#[test]
fn decimal_digits() {
    for (n, s) in [(0u64, "0"), (7, "7"), (10, "10"), (1234567890, "1234567890"), (u64::MAX, "18446744073709551615")] {
        let mut out = String::new();
        write_decimal(&mut out, n);
        assert_eq!(out, s);
    }
}

#[test]
fn escapes() {
    let mut out = String::new();
    write_json_string(&mut out, "\"\\\n\r\t\u{8}\u{c}\u{1}\u{1f}a€\u{7f}");
    assert_eq!(out, "\"\\\"\\\\\\n\\r\\t\\b\\f\\u0001\\u001fa€\u{7f}\"");
}

#[test]
fn json_string_quotes() {
    let mut out = String::from(">");
    write_json_string(&mut out, "a\"b");
    assert_eq!(out, ">\"a\\\"b\"");
}

#[test]
fn encode_test_request() {
    assert_eq!(Request::test(5).to_utf8bytes(), r#"{"jsonrpc":"2.0","id":5,"method":"public/test","params":{}}"#);
}

#[test]
fn encode_subscribe() {
    let r = Request::subscribe(12, &ChannelName::book("BTC-PERPETUAL"));
    assert_eq!(
        r.to_utf8bytes(),
        r#"{"jsonrpc":"2.0","id":12,"method":"public/subscribe","params":{"channels":["book.BTC-PERPETUAL.100ms"]}}"#
    );
    let u = Request::unsubscribe(13, &ChannelName::ticker("ETH"));
    assert_eq!(
        u.to_utf8bytes(),
        r#"{"jsonrpc":"2.0","id":13,"method":"public/unsubscribe","params":{"channels":["ticker.ETH.100ms"]}}"#
    );
}

#[test]
fn encode_get_instruments() {
    assert_eq!(
        Request::get_instruments(1, "BTC", Some("future")).to_utf8bytes(),
        r#"{"jsonrpc":"2.0","id":1,"method":"public/get_instruments","params":{"currency":"BTC","kind":"future"}}"#
    );
    assert_eq!(
        Request::get_instruments(2, "ETH", None).to_utf8bytes(),
        r#"{"jsonrpc":"2.0","id":2,"method":"public/get_instruments","params":{"currency":"ETH"}}"#
    );
}

#[test]
fn encode_ticker_and_order_book() {
    assert_eq!(
        Request::ticker(3, "BTC-PERPETUAL").to_utf8bytes(),
        r#"{"jsonrpc":"2.0","id":3,"method":"public/ticker","params":{"instrument_name":"BTC-PERPETUAL"}}"#
    );
    assert_eq!(
        Request::get_order_book(4, "BTC-PERPETUAL", 10).to_utf8bytes(),
        r#"{"jsonrpc":"2.0","id":4,"method":"public/get_order_book","params":{"depth":10,"instrument_name":"BTC-PERPETUAL"}}"#
    );
}

#[test]
fn encode_heartbeat() {
    assert_eq!(
        heartbeat_request().to_utf8bytes(),
        r#"{"jsonrpc":"2.0","id":0,"method":"public/set_heartbeat","params":{"interval":30}}"#
    );
}

#[test]
fn encode_text_list_and_escaped_method() {
    let r = Request::new(
        9,
        "a\"b",
        vec![("k".to_string(), ParamValue::TextList(vec!["x".to_string(), "y\n".to_string()])), ("e".to_string(), ParamValue::TextList(vec![]))],
    );
    assert_eq!(r.to_utf8bytes(), "{\"jsonrpc\":\"2.0\",\"id\":9,\"method\":\"a\\\"b\",\"params\":{\"k\":[\"x\",\"y\\n\"],\"e\":[]}}");
}
