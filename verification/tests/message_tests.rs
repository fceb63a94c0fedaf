use websocket_service::message::WebsocketMessage;
use websocket_service::ws_message::{WsClientMessage, WsServerMessage};

#[test]
fn new_payload_wraps_the_bytes() {
    let m = WebsocketMessage::new_payload("settings:tasks_update", &[10, 20, 30]);
    assert!(m.success);
    assert_eq!(m.cmd, "settings:tasks_update");
    assert_eq!(m.text, None);
    assert_eq!(m.args, None);
    assert_eq!(m.payload.as_deref(), Some(&[10u8, 20, 30][..]));
    assert_eq!(m.payload_bytes(), Some(&vec![10u8, 20, 30]));
}

#[test]
fn new_text_wraps_the_text() {
    let m = WebsocketMessage::new_text("server:notice", "all good");
    assert!(m.success);
    assert_eq!(m.text.as_deref(), Some("all good"));
    assert_eq!(m.payload, None);
    assert_eq!(m.payload_bytes(), None);
}

#[test]
fn an_error_envelope_carries_text_and_no_payload() {
    let m = WebsocketMessage::new_error("server:error", "that failed");
    assert!(!m.success);
    assert_eq!(m.text.as_deref(), Some("that failed"));
    assert_eq!(m.payload, None);
}

#[test]
fn server_message_builders() {
    let m = WsServerMessage::new(5u32, "server:count");
    assert!(m.success);
    assert_eq!(m.command, "server:count");
    assert_eq!(m.info, "");
    assert_eq!(m.get_payload(), &Some(5u32));

    let m = WsServerMessage::new_with_message(7u32, "server:count", "fresh");
    assert!(m.success);
    assert_eq!(m.info, "fresh");
    assert_eq!(m.get_payload(), &Some(7u32));

    let d: WsServerMessage<u32> = Default::default();
    assert!(!d.success);
    assert_eq!(d.command, "server:none");
    assert_eq!(d.info, "");
    assert_eq!(d.get_payload(), &None);
}

#[test]
fn client_message_round_trips_its_fields() {
    let m = WsClientMessage {
        success: true,
        info: String::new(),
        command: "client:object?kind".to_owned(),
        payload: Some("{\"thumbnails\":true}".to_owned()),
    };
    assert_eq!(m.get_native_command(), "client:object?kind");
    let c = m.get_command().unwrap();
    assert_eq!(c.target, "client");
    assert_eq!(c.method, "object");
    assert_eq!(c.args, vec!["kind".to_owned()]);
}
