use dazzle::config::{instruments_currency, BookQuery, Config};
use dazzle::connection::{
    is_connected, on_runner_event, on_ws_event, ConnectionState, DisconnectReason, RunnerEvent,
    WsAction, WsEvent,
};
use dazzle::stream::{deliver, lag_error, Delivery, LagPolicy};
use dazzle::error::AppError;

#[test]
fn ws_events() {
    assert_eq!(on_ws_event(WsEvent::TextReceived), WsAction::Forward);
    assert_eq!(on_ws_event(WsEvent::PingReceived), WsAction::Pong);
    assert_eq!(on_ws_event(WsEvent::OutboundReady), WsAction::Send);
    assert_eq!(on_ws_event(WsEvent::OtherFrame), WsAction::Ignore);
    assert_eq!(on_ws_event(WsEvent::PongFailed), WsAction::Ignore);
    assert_eq!(on_ws_event(WsEvent::OutboundClosed), WsAction::Disconnect(DisconnectReason::Shutdown));
    assert_eq!(on_ws_event(WsEvent::ForwardFailed), WsAction::Disconnect(DisconnectReason::Shutdown));
    for e in [WsEvent::ReadTimedOut, WsEvent::CloseReceived, WsEvent::ReadFailed, WsEvent::ReadEnded, WsEvent::WriteFailed] {
        assert_eq!(on_ws_event(e), WsAction::Disconnect(DisconnectReason::ConnectionLost));
    }
}

#[test]
fn runner_steps() {
    let s = on_runner_event(RunnerEvent::Connected);
    assert_eq!(s.state, ConnectionState::Connected);
    assert!(s.reset_backoff && s.run_session && !s.stop);
    let s = on_runner_event(RunnerEvent::ConnectFailed);
    assert_eq!(s.state, ConnectionState::Connecting);
    assert!(s.notify_lost && s.retry_after_backoff && !s.stop);
    let s = on_runner_event(RunnerEvent::SessionEnded(DisconnectReason::ConnectionLost));
    assert!(s.notify_lost && s.retry_after_backoff);
    let s = on_runner_event(RunnerEvent::SessionEnded(DisconnectReason::Shutdown));
    assert_eq!(s.state, ConnectionState::Stopped);
    assert!(s.stop && !s.notify_lost);
    assert!(is_connected(ConnectionState::Connected));
    assert!(!is_connected(ConnectionState::Connecting));
}

#[test]
fn config_address_and_currency() {
    let c = Config { service_host: "0.0.0.0".to_string(), service_port: "3000".to_string(), deribit_url: "wss://x".to_string() };
    assert_eq!(c.address(), "0.0.0.0:3000");
    assert_eq!(instruments_currency(None), "BTC");
    assert_eq!(instruments_currency(Some("ETH")), "ETH");
    assert_eq!(BookQuery { depth: Some(5) }.depth, Some(5));
}

#[test]
fn filter_passes_matching_items() {
    let sent = [1, 2, 3, 4];
    let out: Vec<i32> = sent
        .iter()
        .filter_map(|v| deliver(Delivery::Item(*v), *v % 2 == 0, LagPolicy::Report))
        .map(|r| r.unwrap())
        .collect();
    assert_eq!(out, vec![2, 4]);
}

#[test]
fn stream_ends_when_sender_dropped() {
    let sent: [i32; 0] = [];
    let out: Vec<Result<i32, AppError>> =
        sent.iter().filter_map(|v| deliver(Delivery::Item(*v), true, LagPolicy::Report)).collect();
    assert!(out.is_empty());
}

#[test]
fn lag_returns_error() {
    let first = deliver(Delivery::<i32>::Lagged(1), true, LagPolicy::Report).unwrap();
    assert!(first.is_err());
    assert_eq!(first.unwrap_err(), AppError::InternalError("Stream lagged, dropped 1 messages".to_string()));
    assert!(deliver(Delivery::<i32>::Lagged(1), true, LagPolicy::Skip).is_none());
    assert_eq!(lag_error(12), AppError::InternalError("Stream lagged, dropped 12 messages".to_string()));
}
