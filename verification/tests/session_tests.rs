use futures_channel::mpsc::unbounded;
use websocket_service::client::Client;
use websocket_service::codec::{decode, encode};
use websocket_service::message::WebsocketMessage;
use websocket_service::registry::{OutboundFrame, SendError, WsService};
use websocket_service::session::{pump_inbound, session_step, SessionAction, SessionState};
use websocket_service::session::SessionEvent;

#[test]
fn handshake_registers_the_connection() {
    let (state, action) = session_step(SessionState::Connecting, SessionEvent::HandshakeCompleted);
    assert_eq!(state, SessionState::Connected);
    assert_eq!(action, SessionAction::Register);
    let (state, action) = session_step(SessionState::Connecting, SessionEvent::HandshakeFailed);
    assert_eq!(state, SessionState::Closed);
    assert_eq!(action, SessionAction::Keep);
}

#[test]
fn malformed_then_valid_frame_dispatches_exactly_once() {
    let corrupt = vec![9u8, 9, 9];
    let msg = WebsocketMessage::new_text("client:pdf", "page four");
    let valid = encode(&msg);

    // Step by step: the corrupt frame is discarded and the session lives on.
    let (state, action) = session_step(
        SessionState::Connected,
        SessionEvent::InboundData(corrupt.clone()),
    );
    assert_eq!(state, SessionState::Connected);
    assert!(matches!(action, SessionAction::DiscardFrame(_)));
    let (state, action) = session_step(state, SessionEvent::InboundData(valid.clone()));
    assert_eq!(state, SessionState::Connected);
    assert_eq!(action, SessionAction::Dispatch(msg.clone()));

    // And over the whole read loop: one handler invocation, one logged failure.
    let (dispatched, discarded) = pump_inbound(&vec![corrupt, valid]);
    assert_eq!(dispatched, vec![msg]);
    assert_eq!(discarded, 1);
}

#[test]
fn control_frames_never_reach_the_handler() {
    let (state, action) = session_step(SessionState::Connected, SessionEvent::InboundPing);
    assert_eq!((state, action), (SessionState::Connected, SessionAction::MarkAlive));
    let (state, action) = session_step(SessionState::Connected, SessionEvent::InboundPong);
    assert_eq!((state, action), (SessionState::Connected, SessionAction::Keep));
}

#[test]
fn either_half_dying_closes_the_whole_session() {
    for event in [
        SessionEvent::InboundClose,
        SessionEvent::ReadError,
        SessionEvent::WriteError,
        SessionEvent::OutboundClosed,
    ] {
        let (state, action) = session_step(SessionState::Connected, event);
        assert_eq!(state, SessionState::Closing);
        assert_eq!(action, SessionAction::Deregister);
        let (state, action) = session_step(state, SessionEvent::ReadError);
        assert_eq!((state, action), (SessionState::Closed, SessionAction::Keep));
    }
}

#[test]
fn peer_close_removes_the_registry_entry() {
    let mut reg = WsService::new();
    let (tx, _rx) = unbounded();
    reg.register(42, tx);
    assert!(reg.contains(42));
    let (_, action) = session_step(SessionState::Connected, SessionEvent::InboundClose);
    assert_eq!(action, SessionAction::Deregister);
    reg.deregister(42);
    assert!(!reg.contains(42));
    assert_eq!(reg.len(), 0);
}

#[test]
fn client_send_fails_gracefully_until_connected() {
    let mut client = Client::new();
    assert!(!client.is_connected());
    let msg = WebsocketMessage::new_text("client:hello", "anyone there?");
    assert_eq!(client.send_message(&msg), Err(SendError::NotConnected));
    assert_eq!(client.ping(), Err(SendError::NotConnected));

    // A listener appears: the supervisor connects the session.
    let (tx, mut rx) = unbounded();
    client.connect(tx);
    assert!(client.is_connected());
    assert_eq!(client.send_message(&msg), Ok(true));
    match rx.try_next() {
        Ok(Some(OutboundFrame::Data(bytes))) => assert_eq!(decode(&bytes).unwrap(), msg),
        other => panic!("expected the encoded envelope, got {:?}", other),
    }
    assert_eq!(client.ping(), Ok(true));
    assert!(matches!(rx.try_next(), Ok(Some(OutboundFrame::Ping(p))) if p == vec![12u8]));

    // The session ends: sends fail gracefully again.
    client.disconnect();
    assert!(!client.is_connected());
    assert_eq!(client.send_message(&msg), Err(SendError::NotConnected));
}

#[test]
fn a_second_connect_replaces_the_session() {
    let mut client = Client::new();
    let (tx1, mut rx1) = unbounded();
    let (tx2, mut rx2) = unbounded();
    client.connect(tx1);
    client.connect(tx2);
    let msg = WebsocketMessage::new_text("client:hello", "single flight");
    assert_eq!(client.send_message(&msg), Ok(true));
    // The replaced channel is orphaned and closed; only the new one receives.
    assert_eq!(rx1.try_next().ok(), Some(None));
    assert!(matches!(rx2.try_next(), Ok(Some(OutboundFrame::Data(_)))));
}

#[test]
fn client_send_to_a_dead_session_reports_nondelivery() {
    let mut client = Client::new();
    let (tx, rx) = unbounded();
    client.connect(tx);
    drop(rx);
    let msg = WebsocketMessage::new_text("client:hello", "whoops");
    // Still connected as far as the state knows, but the enqueue fails
    // gracefully: no panic, just a false delivery flag.
    assert_eq!(client.send_message(&msg), Ok(false));
}
