use dazzle::channel::{find_dot_bytes, find_dots, Channel};
use dazzle::channel_name::{get_channel_name, ChannelName};
use dazzle::error::AppError;

#[test]
fn channel_new_and_parts() {
    let c = Channel::new("BTC-PERPETUAL", "book", "100ms");
    assert_eq!(c.as_str(), "book.BTC-PERPETUAL.100ms");
    assert_eq!(c.kind_end, 4);
    assert_eq!(c.instrument_end, 18);
    assert_eq!(c.kind(), "book");
    assert_eq!(c.instrument(), "BTC-PERPETUAL");
    assert_eq!(c.interval(), "100ms");
}

#[test]
fn channel_ticker_and_book() {
    let t = Channel::ticker("ETH-PERPETUAL");
    assert_eq!(t.full, "ticker.ETH-PERPETUAL.100ms");
    assert_eq!(t.kind(), "ticker");
    assert_eq!(t.instrument(), "ETH-PERPETUAL");
    let b = Channel::book("ETH-PERPETUAL");
    assert_eq!(b.full, "book.ETH-PERPETUAL.100ms");
    assert!(t != b);
    assert!(b == Channel::book("ETH-PERPETUAL"));
}

#[test]
fn channel_parse_round_trip() {
    let c = Channel::new("BTC-PERPETUAL", "book", "100ms");
    let p = Channel::parse(c.as_str()).unwrap();
    assert_eq!(p.full, c.full);
    assert_eq!(p.kind_end, c.kind_end);
    assert_eq!(p.instrument_end, c.instrument_end);
    assert_eq!(p.interval(), "100ms");
}

#[test]
fn channel_parse_keeps_extra_dots_in_interval() {
    let p = Channel::parse("book.BTC.1.5ms").unwrap();
    assert_eq!(p.kind(), "book");
    assert_eq!(p.instrument(), "BTC");
    assert_eq!(p.interval(), "1.5ms");
}

#[test]
fn channel_parse_empty_parts() {
    let p = Channel::parse("..").unwrap();
    assert_eq!(p.kind(), "");
    assert_eq!(p.instrument(), "");
    assert_eq!(p.interval(), "");
}

#[test]
fn channel_parse_rejects_fewer_than_two_dots() {
    assert_eq!(
        Channel::parse("book.BTC").unwrap_err(),
        AppError::InternalError("Invalid channel: book.BTC".to_string())
    );
    assert_eq!(
        Channel::parse("nodots").unwrap_err(),
        AppError::InternalError("Invalid channel: nodots".to_string())
    );
}

#[test]
fn channel_positions_are_byte_offsets() {
    let c = Channel::new("BTC-€", "book", "100ms");
    assert_eq!(c.kind_end, 4);
    assert_eq!(c.instrument_end, 12);
    assert_eq!(c.instrument(), "BTC-€");
    assert_eq!(c.interval(), "100ms");
    let p = Channel::parse("bö.x.y").unwrap();
    assert_eq!(p.kind_end, 3);
    assert_eq!(p.instrument_end, 5);
    assert_eq!(p.kind(), "bö");
    assert_eq!(p.instrument(), "x");
    let e = Channel::new("x", "é", "y");
    assert_eq!(e.kind_end, 2);
    assert_eq!(e.instrument_end, 4);
    let q = Channel::parse(e.as_str()).unwrap();
    assert_eq!(q.kind_end, 2);
    assert_eq!(q.instrument_end, 4);
}

#[test]
fn dots_found() {
    assert_eq!(find_dots("a.b.c"), (Some(1), Some(3)));
    assert_eq!(find_dots("a.b"), (Some(1), None));
    assert_eq!(find_dots("abc"), (None, None));
}

#[test]
fn channel_name_new_parse_to_string() {
    let c = ChannelName::new("BTC-PERPETUAL", "ticker", "100ms");
    assert_eq!(c.to_string(), "ticker.BTC-PERPETUAL.100ms");
    let p = ChannelName::parse("ticker.BTC-PERPETUAL.100ms").unwrap();
    assert_eq!(p.kind, "ticker");
    assert_eq!(p.instrument_name, "BTC-PERPETUAL");
    assert_eq!(p.interval, "100ms");
    assert_eq!(p.to_string(), c.to_string());
}

#[test]
fn channel_name_ticker_book() {
    assert_eq!(ChannelName::ticker("X").to_string(), "ticker.X.100ms");
    assert_eq!(ChannelName::book("X").to_string(), "book.X.100ms");
}

#[test]
fn channel_name_parse_errors() {
    assert_eq!(
        ChannelName::parse("ticker").unwrap_err(),
        AppError::InternalError("Missing instrument in channel".to_string())
    );
    assert_eq!(
        ChannelName::parse("ticker.BTC").unwrap_err(),
        AppError::InternalError("Missing interval in channel".to_string())
    );
}

#[test]
fn channel_name_interval_keeps_dots() {
    let p = ChannelName::parse("a.b.c.d").unwrap();
    assert_eq!(p.interval, "c.d");
}

#[test]
fn ticker_channel_name() {
    assert_eq!(get_channel_name("BTC-PERPETUAL"), "ticker.BTC-PERPETUAL.100ms");
}

#[test]
fn book_and_ticker_names_agree() {
    for i in ["BTC-PERPETUAL", "ETH-€", ""] {
        assert_eq!(ChannelName::book(i).to_string(), Channel::book(i).as_str());
        assert_eq!(ChannelName::ticker(i).to_string(), Channel::ticker(i).as_str());
    }
}

#[test]
fn dot_byte_offsets_found() {
    assert_eq!(find_dot_bytes("a.b.c"), (Some(1), Some(3)));
    assert_eq!(find_dot_bytes("é.b.c"), (Some(2), Some(4)));
    assert_eq!(find_dot_bytes("é€"), (None, None));
    assert_eq!(find_dot_bytes("x."), (Some(1), None));
}

#[test]
fn channel_and_channel_name_parsers_agree() {
    for s in ["book.BTC-PERPETUAL.100ms", "é.ü€.x.y", "a..", "..", "é.b", "none", "", "ticker.ETH.raw.extra"] {
        let n = ChannelName::parse(s);
        let c = Channel::parse(s);
        assert_eq!(n.is_ok(), c.is_ok(), "{}", s);
        if let (Ok(n), Ok(c)) = (n, c) {
            assert_eq!(n.kind, c.kind());
            assert_eq!(n.instrument_name, c.instrument());
            assert_eq!(n.interval, c.interval());
            assert_eq!(n.to_string(), c.as_str());
        }
    }
}
