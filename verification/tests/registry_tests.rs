use futures_channel::mpsc::{unbounded, UnboundedReceiver};
use websocket_service::codec::decode;
use websocket_service::dispatch::Server;
use websocket_service::message::WebsocketMessage;
use websocket_service::client::Client;
use websocket_service::registry::{
    send_frame_bounded, EnqueueOutcome, OutboundFrame, SendError, WsService,
};
use websocket_service::ws_message::WsErrorMessage;

fn take_data_frame(rx: &mut UnboundedReceiver<OutboundFrame>) -> Vec<u8> {
    match rx.try_next() {
        Ok(Some(OutboundFrame::Data(bytes))) => bytes,
        other => panic!("expected one data frame, got {:?}", other),
    }
}

fn assert_empty(rx: &mut UnboundedReceiver<OutboundFrame>) {
    assert!(rx.try_next().is_err(), "queue should hold nothing more");
}

#[test]
fn deregister_twice_equals_once() {
    let mut reg = WsService::new();
    let (tx, _rx) = unbounded();
    reg.register(7, tx);
    assert!(reg.contains(7));
    reg.deregister(7);
    assert!(!reg.contains(7));
    reg.deregister(7);
    assert!(!reg.contains(7));
    assert_eq!(reg.len(), 0);
}

#[test]
fn deregister_absent_is_a_no_op() {
    let mut reg = WsService::new();
    let (tx, _rx) = unbounded();
    reg.register(1, tx);
    reg.deregister(99);
    assert_eq!(reg.ids(), vec![1]);
}

#[test]
fn duplicate_register_replaces() {
    let mut reg = WsService::new();
    let (tx1, mut rx1) = unbounded();
    let (tx2, mut rx2) = unbounded();
    reg.register(5, tx1);
    reg.register(5, tx2);
    assert_eq!(reg.len(), 1);
    let outcome = reg.broadcast_all(&OutboundFrame::Ping(vec![12]));
    assert_eq!(outcome, vec![(5, true)]);
    // The replaced handle was dropped with its entry: its queue is closed.
    assert_eq!(rx1.try_next().ok(), Some(None));
    assert!(matches!(rx2.try_next(), Ok(Some(OutboundFrame::Ping(_)))));
}

#[test]
fn broadcast_reaches_every_connection_exactly_once() {
    let mut server = Server::new();
    let (tx1, mut rx1) = unbounded();
    let (tx2, mut rx2) = unbounded();
    let (tx3, mut rx3) = unbounded();
    server.register(1, tx1);
    server.register(2, tx2);
    server.register(3, tx3);
    let msg = WebsocketMessage::new_text("server:notice", "to everyone");
    let outcome = server.broadcast_message_to_all(&msg);
    assert_eq!(outcome, vec![(1, true), (2, true), (3, true)]);
    for rx in [&mut rx1, &mut rx2, &mut rx3] {
        let bytes = take_data_frame(rx);
        assert_eq!(decode(&bytes).unwrap(), msg);
        assert_empty(rx);
    }
}

#[test]
fn broadcast_except_skips_exactly_the_sender() {
    let mut server = Server::new();
    let (tx1, mut rx1) = unbounded();
    let (tx2, mut rx2) = unbounded();
    let (tx3, mut rx3) = unbounded();
    server.register(1, tx1);
    server.register(2, tx2);
    server.register(3, tx3);
    let msg = WebsocketMessage::new_text("server:notice", "to the others");
    let outcome = server.message_to_all_except_sender(2, &msg);
    assert_eq!(outcome, vec![(1, true), (3, true)]);
    assert_eq!(decode(&take_data_frame(&mut rx1)).unwrap(), msg);
    assert_empty(&mut rx2);
    assert_eq!(decode(&take_data_frame(&mut rx3)).unwrap(), msg);
}

#[test]
fn broadcast_survives_a_dead_peer() {
    let mut server = Server::new();
    let (tx1, rx1) = unbounded();
    let (tx2, mut rx2) = unbounded();
    server.register(1, tx1);
    server.register(2, tx2);
    drop(rx1);
    let msg = WebsocketMessage::new_text("server:notice", "still delivered");
    let outcome = server.broadcast_message_to_all(&msg);
    assert_eq!(outcome, vec![(1, false), (2, true)]);
    assert_eq!(decode(&take_data_frame(&mut rx2)).unwrap(), msg);
}

#[test]
fn unicast_finds_only_registered_peers() {
    let mut server = Server::new();
    let (tx, mut rx) = unbounded();
    server.register(4, tx);
    let msg = WebsocketMessage::new_payload("server:pdf_response", &[1, 2, 3]);
    assert_eq!(server.send(&msg, 4), Ok(true));
    assert_eq!(decode(&take_data_frame(&mut rx)).unwrap(), msg);
    assert_eq!(server.send(&msg, 5), Err(SendError::NoSuchPeer));
}

#[test]
fn duplicate_carries_the_same_bytes() {
    let data = OutboundFrame::Data(vec![1u8, 2, 255]);
    assert_eq!(data.duplicate(), data);
    let ping = OutboundFrame::Ping(vec![12u8]);
    assert_eq!(ping.duplicate(), ping);
}

#[test]
fn bounded_enqueue_drops_on_a_full_queue() {
    let (tx, mut rx) = unbounded();
    let ping = || OutboundFrame::Ping(vec![12]);
    // Fill the queue to the limit, then watch the drop policy kick in.
    assert_eq!(send_frame_bounded(&tx, ping(), 2), EnqueueOutcome::Enqueued);
    assert_eq!(send_frame_bounded(&tx, ping(), 2), EnqueueOutcome::Enqueued);
    assert_eq!(send_frame_bounded(&tx, ping(), 2), EnqueueOutcome::DroppedFull(2));
    // Draining the queue makes room again.
    assert!(rx.try_next().unwrap().is_some());
    assert_eq!(send_frame_bounded(&tx, ping(), 2), EnqueueOutcome::Enqueued);
    // A gone receiver is reported, not a panic.
    drop(rx);
    assert_eq!(send_frame_bounded(&tx, ping(), 2), EnqueueOutcome::PeerGone);
}

#[test]
fn client_bounded_send_applies_the_same_policy() {
    let mut client = Client::new();
    let (tx, _rx) = unbounded();
    client.connect(tx);
    let msg = WebsocketMessage::new_text("client:hello", "capped");
    assert_eq!(client.send_message_bounded(&msg, 1), Ok(EnqueueOutcome::Enqueued));
    assert_eq!(client.send_message_bounded(&msg, 1), Ok(EnqueueOutcome::DroppedFull(1)));
    client.disconnect();
    assert_eq!(client.send_message_bounded(&msg, 1), Err(SendError::NotConnected));
}

#[test]
fn error_reports_travel_as_envelopes() {
    let mut reg = WsService::new();
    let (tx, mut rx) = unbounded();
    reg.register(9, tx);
    let report = WsErrorMessage::err_custom("bad frame");
    assert_eq!(reg.error_to_client(9, &report), Ok(true));
    let envelope = decode(&take_data_frame(&mut rx)).unwrap();
    assert!(!envelope.success);
    assert_eq!(envelope.cmd, "server:error");
    assert_eq!(envelope.text.as_deref(), Some("bad frame"));
    assert_eq!(envelope.payload, None);
    assert_eq!(reg.error_to_client(8, &report), Err(SendError::NoSuchPeer));
    let outcome = reg.error_to_all(&report);
    assert_eq!(outcome, vec![(9, true)]);
    assert!(!decode(&take_data_frame(&mut rx)).unwrap().success);
}
