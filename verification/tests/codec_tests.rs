use websocket_service::codec::{decode, encode, CodecError};
use websocket_service::message::WebsocketMessage;

fn round_trips(msg: &WebsocketMessage) {
    let bytes = encode(msg);
    let back = decode(&bytes).expect("an encoded envelope must decode");
    assert_eq!(&back, msg);
}

#[test]
fn round_trip_payload() {
    round_trips(&WebsocketMessage::new_payload(
        "test_client_cmd:test_client_method",
        &[1u8, 2, 3, 255, 0, 42],
    ));
}

#[test]
fn round_trip_text() {
    round_trips(&WebsocketMessage::new_text("test_server_cmd:test_server_method", "hello"));
}

#[test]
fn round_trip_error() {
    round_trips(&WebsocketMessage::new_error("server:error", "something broke"));
}

#[test]
fn round_trip_unicode_text() {
    round_trips(&WebsocketMessage::new_text("server:notice", "тестовая рассылка — ✓"));
}

#[test]
fn round_trip_with_args() {
    let msg = WebsocketMessage {
        success: true,
        cmd: "server:pdf".to_owned(),
        text: None,
        args: Some(vec!["thumb=false".to_owned(), "page=2".to_owned(), String::new()]),
        payload: Some(vec![0u8; 1000]),
    };
    round_trips(&msg);
}

#[test]
fn round_trip_empty_fields() {
    let msg = WebsocketMessage {
        success: false,
        cmd: String::new(),
        text: Some(String::new()),
        args: Some(Vec::new()),
        payload: None,
    };
    round_trips(&msg);
}

#[test]
fn exact_byte_layout() {
    // success flag, then "a:b" length-prefixed, then three absence tags.
    let msg = WebsocketMessage {
        success: true,
        cmd: "a:b".to_owned(),
        text: None,
        args: None,
        payload: None,
    };
    let mut expected: Vec<u8> = vec![1];
    expected.extend_from_slice(&3u64.to_le_bytes());
    expected.extend_from_slice(b"a:b");
    expected.extend_from_slice(&[0, 0, 0]);
    assert_eq!(encode(&msg), expected);
}

#[test]
fn decode_rejects_empty_input() {
    assert_eq!(decode(&Vec::new()), Err(CodecError::Truncated));
}

#[test]
fn decode_rejects_bad_flag_byte() {
    let msg = WebsocketMessage::new_text("a:b", "t");
    let mut bytes = encode(&msg);
    bytes[0] = 7;
    assert_eq!(decode(&bytes), Err(CodecError::BadTag));
}

#[test]
fn decode_rejects_invalid_utf8() {
    let mut bytes: Vec<u8> = vec![1];
    bytes.extend_from_slice(&1u64.to_le_bytes());
    bytes.push(0xFF);
    bytes.extend_from_slice(&[0, 0, 0]);
    assert_eq!(decode(&bytes), Err(CodecError::BadUtf8));
}

#[test]
fn decode_rejects_trailing_bytes() {
    let msg = WebsocketMessage::new_text("a:b", "t");
    let mut bytes = encode(&msg);
    bytes.push(0);
    assert_eq!(decode(&bytes), Err(CodecError::TrailingBytes));
}

#[test]
fn decode_rejects_truncated_frame() {
    let msg = WebsocketMessage::new_payload("a:b", &[9u8; 32]);
    let bytes = encode(&msg);
    let cut = &bytes[..bytes.len() - 1];
    assert_eq!(decode(&cut.to_vec()), Err(CodecError::Truncated));
}

#[test]
fn decode_error_names_what_was_expected() {
    assert_eq!(CodecError::Truncated.expected(), "more bytes for the next field");
    assert_eq!(CodecError::BadTag.expected(), "a flag byte holding 0 or 1");
    assert_eq!(CodecError::BadUtf8.expected(), "a valid utf-8 string field");
    assert_eq!(CodecError::TrailingBytes.expected(), "no bytes after the last field");
}
