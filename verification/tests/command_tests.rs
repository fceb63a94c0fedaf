use websocket_service::command::{parse_command, str_eq};
use websocket_service::ws_client_service::{client_scheme, WsClientService};
use websocket_service::ws_error::WSError;
use websocket_service::ws_message::{WsClientMessage, WsErrorMessage};

#[test]
fn test_deserialize_message_by_url() {
    let msg = "server:pdf?thumb=false&page=2&path=15933154/text0000000000.pdf";
    let url = parse_command(msg).unwrap();
    assert_eq!(url.target, "server");
    assert_eq!(url.method, "pdf");
    let pairs: Vec<(&str, &str)> = url
        .args
        .iter()
        .map(|a| a.split_once('=').unwrap_or((a.as_str(), "")))
        .collect();
    assert_eq!(
        pairs,
        vec![("thumb", "false"), ("page", "2"), ("path", "15933154/text0000000000.pdf")]
    );
}

#[test]
fn parse_without_query() {
    let c = parse_command("test_client_cmd:test_client_method").unwrap();
    assert_eq!(c.target, "test_client_cmd");
    assert_eq!(c.method, "test_client_method");
    assert!(c.args.is_empty());
}

#[test]
fn parse_empty_query_has_no_args() {
    let c = parse_command("server:pdf?").unwrap();
    assert_eq!(c.method, "pdf");
    assert!(c.args.is_empty());
}

#[test]
fn parse_keeps_empty_segments() {
    let c = parse_command("server:pdf?a=1&&b=2").unwrap();
    assert_eq!(c.args, vec!["a=1".to_owned(), String::new(), "b=2".to_owned()]);
}

#[test]
fn parse_rejects_missing_colon() {
    match parse_command("with_payload1") {
        Err(WSError::ErrorParsingClientCommand(w)) => assert_eq!(w, "with_payload1"),
        other => panic!("expected a parse error, got {:?}", other),
    }
}

#[test]
fn parse_rejects_empty_target() {
    assert!(matches!(parse_command(":method"), Err(WSError::ErrorParsingClientCommand(_))));
}

#[test]
fn parse_rejects_query_mark_in_target() {
    assert!(matches!(parse_command("a?b:c"), Err(WSError::ErrorParsingClientCommand(_))));
}

#[test]
fn str_eq_compares_by_characters() {
    assert!(str_eq("client", client_scheme()));
    assert!(!str_eq("client", "server"));
    assert!(!str_eq("client", "client "));
    assert!(str_eq("", ""));
}

fn client_message(command: &str) -> WsClientMessage {
    WsClientMessage {
        success: true,
        info: String::new(),
        command: command.to_owned(),
        payload: None,
    }
}

#[test]
fn process_accepts_client_scheme() {
    let c = WsClientService::process_messages(&client_message("client:pdf?page=4")).unwrap();
    assert_eq!(c.target, "client");
    assert_eq!(c.method, "pdf");
    assert_eq!(c.args, vec!["page=4".to_owned()]);
}

#[test]
fn process_rejects_other_scheme() {
    match WsClientService::process_messages(&client_message("server:pdf")) {
        Err(WSError::ErrorCommandScheme(w)) => assert_eq!(w, "server"),
        other => panic!("expected a scheme error, got {:?}", other),
    }
}

#[test]
fn process_rejects_bad_command() {
    match WsClientService::process_messages(&client_message("pdf_request")) {
        Err(WSError::ErrorParsingClientCommand(w)) => assert_eq!(w, "pdf_request"),
        other => panic!("expected a parse error, got {:?}", other),
    }
}

#[test]
fn error_messages_carry_their_context() {
    let e = WSError::ErrorCommandScheme("ftp".to_owned());
    assert_eq!(e.message(), "wrong command scheme: ftp");
    let report = WsErrorMessage::err(e);
    assert!(!report.success);
    assert_eq!(report.command, "server:error");
    assert_eq!(report.info, "wrong command scheme: ftp");
    let custom = WsErrorMessage::err_custom("boom");
    assert!(!custom.success);
    assert_eq!(custom.info, "boom");
    assert_eq!(custom.command, "server:error");

    let e = WSError::ErrorDeserializeClientMessage("not json".to_owned());
    assert_eq!(e.message(), "error deserializing the incoming message: not json");
    let e = WSError::ErrorParsingClientCommand("no colon".to_owned());
    assert_eq!(e.message(), "error parsing the command: no colon");
}

#[test]
fn get_native_command_returns_the_wire_string() {
    let m = client_message("client:tasks?all");
    assert_eq!(m.get_native_command(), "client:tasks?all");
    let c = m.get_command().unwrap();
    assert_eq!(c.target, "client");
    assert_eq!(c.method, "tasks");
    assert_eq!(c.args, vec!["all".to_owned()]);
}
