//! The decisions of the exchange connection: what each WebSocket event
//! leads to, and how the reconnecting runner moves between states.
//!
//! The socket, the channels to the rest of the application, the timers and
//! the backoff belong to the runner outside the library; it reports each
//! event here and carries out the answer.

use vstd::prelude::*;

use crate::rpc::Request;

verus! {

/// The state of the connection, as published to observers.
#[derive(Debug, Clone, Copy, PartialEq, Eq, Structural)]
pub enum ConnectionState {
    Stopped,
    Connecting,
    Connected,
    Failed,
}

/// Why a connected session ended.
#[derive(Debug, Clone, Copy, PartialEq, Eq, Structural)]
pub enum DisconnectReason {
    /// The socket failed or went silent: reconnect.
    ConnectionLost,
    /// The application stopped listening or sending: stop cleanly.
    Shutdown,
}

/// What happened while connected.
#[derive(Debug, Clone, Copy, PartialEq, Eq, Structural)]
pub enum WsEvent {
    /// Nothing was read within the read timeout.
    ReadTimedOut,
    /// A text frame arrived.
    TextReceived,
    /// A ping arrived.
    PingReceived,
    /// The peer closed the socket.
    CloseReceived,
    /// Another kind of frame arrived.
    OtherFrame,
    /// Reading failed.
    ReadFailed,
    /// The socket's stream ended.
    ReadEnded,
    /// The application handed over a text to send.
    OutboundReady,
    /// The application dropped its sending side.
    OutboundClosed,
    /// Handing a received text to the application failed: it is gone.
    ForwardFailed,
    /// Writing to the socket failed.
    WriteFailed,
    /// Answering a ping failed.
    PongFailed,
}

/// What the session does about an event.
#[derive(Debug, Clone, Copy, PartialEq, Eq, Structural)]
pub enum WsAction {
    /// Hand the received text to the application.
    Forward,
    /// Answer the ping with a pong carrying the same data.
    Pong,
    /// Write the application's text to the socket.
    Send,
    /// Log and go on.
    Ignore,
    /// End the session.
    Disconnect(DisconnectReason),
}

/// The action for each event of a connected session.
pub open spec fn ws_action_spec(e: WsEvent) -> WsAction {
    match e {
        WsEvent::TextReceived => WsAction::Forward,
        WsEvent::PingReceived => WsAction::Pong,
        WsEvent::OutboundReady => WsAction::Send,
        WsEvent::OtherFrame => WsAction::Ignore,
        WsEvent::PongFailed => WsAction::Ignore,
        WsEvent::OutboundClosed => WsAction::Disconnect(DisconnectReason::Shutdown),
        WsEvent::ForwardFailed => WsAction::Disconnect(DisconnectReason::Shutdown),
        _ => WsAction::Disconnect(DisconnectReason::ConnectionLost),
    }
}

/// Decides what a connected session does about an event: texts are
/// forwarded, pings answered, outbound texts sent, other frames and failed
/// pongs ignored; the session ends with `Shutdown` when the application
/// side is gone and with `ConnectionLost` on a timeout, a close, a read or
/// write failure or the end of the stream.
pub fn on_ws_event(e: WsEvent) -> (a: WsAction)
    ensures
        a == ws_action_spec(e),
{
    match e {
        WsEvent::TextReceived => WsAction::Forward,
        WsEvent::PingReceived => WsAction::Pong,
        WsEvent::OutboundReady => WsAction::Send,
        WsEvent::OtherFrame => WsAction::Ignore,
        WsEvent::PongFailed => WsAction::Ignore,
        WsEvent::OutboundClosed => WsAction::Disconnect(DisconnectReason::Shutdown),
        WsEvent::ForwardFailed => WsAction::Disconnect(DisconnectReason::Shutdown),
        WsEvent::ReadTimedOut => WsAction::Disconnect(DisconnectReason::ConnectionLost),
        WsEvent::CloseReceived => WsAction::Disconnect(DisconnectReason::ConnectionLost),
        WsEvent::ReadFailed => WsAction::Disconnect(DisconnectReason::ConnectionLost),
        WsEvent::ReadEnded => WsAction::Disconnect(DisconnectReason::ConnectionLost),
        WsEvent::WriteFailed => WsAction::Disconnect(DisconnectReason::ConnectionLost),
    }
}

/// What happened to the runner's attempt.
#[derive(Debug, Clone, Copy, PartialEq, Eq, Structural)]
pub enum RunnerEvent {
    /// Opening the socket failed.
    ConnectFailed,
    /// The socket is open.
    Connected,
    /// A connected session ended.
    SessionEnded(DisconnectReason),
}

/// What the runner does next.
#[derive(Debug, Clone, Copy, PartialEq, Eq, Structural)]
pub struct RunnerStep {
    /// The state to publish.
    pub state: ConnectionState,
    /// Start the backoff over.
    pub reset_backoff: bool,
    /// Run a session on the open socket.
    pub run_session: bool,
    /// Tell the application that the connection was lost.
    pub notify_lost: bool,
    /// Wait for the next backoff interval, then connect again.
    pub retry_after_backoff: bool,
    /// Stop for good.
    pub stop: bool,
}

/// The runner's step after each event.
pub open spec fn runner_step_spec(e: RunnerEvent) -> RunnerStep {
    match e {
        RunnerEvent::ConnectFailed => RunnerStep {
            state: ConnectionState::Connecting,
            reset_backoff: false,
            run_session: false,
            notify_lost: true,
            retry_after_backoff: true,
            stop: false,
        },
        RunnerEvent::Connected => RunnerStep {
            state: ConnectionState::Connected,
            reset_backoff: true,
            run_session: true,
            notify_lost: false,
            retry_after_backoff: false,
            stop: false,
        },
        RunnerEvent::SessionEnded(DisconnectReason::ConnectionLost) => RunnerStep {
            state: ConnectionState::Connecting,
            reset_backoff: false,
            run_session: false,
            notify_lost: true,
            retry_after_backoff: true,
            stop: false,
        },
        RunnerEvent::SessionEnded(DisconnectReason::Shutdown) => RunnerStep {
            state: ConnectionState::Stopped,
            reset_backoff: false,
            run_session: false,
            notify_lost: false,
            retry_after_backoff: false,
            stop: true,
        },
    }
}

/// Decides the runner's next step: an open socket is published as
/// `Connected`, resets the backoff and runs a session; a failed attempt or a
/// lost session is published as `Connecting`, reported to the application
/// as a lost connection and retried after a backoff; a shut-down session is
/// published as `Stopped` and ends the runner.
pub fn on_runner_event(e: RunnerEvent) -> (s: RunnerStep)
    ensures
        s == runner_step_spec(e),
{
    match e {
        RunnerEvent::Connected => RunnerStep {
            state: ConnectionState::Connected,
            reset_backoff: true,
            run_session: true,
            notify_lost: false,
            retry_after_backoff: false,
            stop: false,
        },
        RunnerEvent::SessionEnded(DisconnectReason::Shutdown) => RunnerStep {
            state: ConnectionState::Stopped,
            reset_backoff: false,
            run_session: false,
            notify_lost: false,
            retry_after_backoff: false,
            stop: true,
        },
        _ => RunnerStep {
            state: ConnectionState::Connecting,
            reset_backoff: false,
            run_session: false,
            notify_lost: true,
            retry_after_backoff: true,
            stop: false,
        },
    }
}

/// The runner stops exactly when a session ended in a shutdown, and every
/// other failure is reported upstream and retried.
pub proof fn lemma_runner_stops_only_on_shutdown(e: RunnerEvent)
    ensures
        runner_step_spec(e).stop <==> e == RunnerEvent::SessionEnded(DisconnectReason::Shutdown),
        (e == RunnerEvent::ConnectFailed || e == RunnerEvent::SessionEnded(
            DisconnectReason::ConnectionLost,
        )) ==> runner_step_spec(e).notify_lost && runner_step_spec(e).retry_after_backoff,
{
}

/// `Connected` is published only for a freshly opened socket, and only then
/// does a session run: after a failed attempt or a lost session the runner
/// publishes `Connecting` while it waits to retry, and after a shutdown
/// `Stopped`.
pub proof fn lemma_connected_only_on_open_socket(e: RunnerEvent)
    ensures
        runner_step_spec(e).state == ConnectionState::Connected <==> e == RunnerEvent::Connected,
        runner_step_spec(e).run_session <==> runner_step_spec(e).state == ConnectionState::Connected,
        runner_step_spec(e).retry_after_backoff ==> runner_step_spec(e).state
            == ConnectionState::Connecting,
        e == RunnerEvent::SessionEnded(DisconnectReason::ConnectionLost) ==> runner_step_spec(e).state
            == ConnectionState::Connecting,
        runner_step_spec(e).stop <==> runner_step_spec(e).state == ConnectionState::Stopped,
        runner_step_spec(e).reset_backoff <==> e == RunnerEvent::Connected,
        runner_step_spec(e).notify_lost <==> runner_step_spec(e).retry_after_backoff,
        runner_step_spec(e).retry_after_backoff <==> (e == RunnerEvent::ConnectFailed || e
            == RunnerEvent::SessionEnded(DisconnectReason::ConnectionLost)),
{
}

/// Whether waiting for the first connection is over.
pub fn is_connected(state: ConnectionState) -> (r: bool)
    ensures
        r == (state == ConnectionState::Connected),
{
    match state {
        ConnectionState::Connected => true,
        _ => false,
    }
}

/// Heartbeat interval asked of the exchange, in seconds.
pub const HEARTBEAT_INTERVAL_SECS: u64 = 30;

/// Read timeout of a session, in seconds: the heartbeat interval plus 15s of
/// slack, so that a silent socket is noticed.
pub const READ_TIMEOUT_SECS: u64 = 45;

/// The request sent first on every new session: heartbeats every
/// `HEARTBEAT_INTERVAL_SECS` seconds, with request id 0.
pub fn heartbeat_request() -> (r: Request)
    ensures
        r.id == 0,
        r.method@ == "public/set_heartbeat"@,
        r.params@.len() == 1,
        r.params@[0].0@ == "interval"@,
        r.params@[0].1 == crate::rpc::ParamValue::Number(HEARTBEAT_INTERVAL_SECS),
{
    Request::set_heartbeat(0, HEARTBEAT_INTERVAL_SECS)
}

} // verus!
