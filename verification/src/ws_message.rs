//! The message shapes of the command-routing stack: what a client sends,
//! what the server answers, and the error report, together with the
//! error-envelope delivery operations on the registry.

use vstd::prelude::*;
use crate::codec;
use crate::command;
use crate::command::Command;
use crate::message::{MessageView, WebsocketMessage};
use crate::registry::{OutboundFrame, SendError, WsService};
use crate::ws_error::{spec_error_text, WSError};

verus! {

/// A message from a client: its `command` string follows the routing
/// grammar and is parsed on demand.
#[derive(Debug, Clone, PartialEq, Eq)]
pub struct WsClientMessage {
    pub success: bool,
    pub info: String,
    pub command: String,
    pub payload: Option<String>,
}

impl WsClientMessage {
    /// Parse the command string into its routing parts.
    pub fn get_command(&self) -> (r: Result<Command, WSError>)
        ensures
            match r {
                Ok(c) => command::spec_parse_command(self.command@) == Some(c@),
                Err(e) => command::spec_parse_command(self.command@) is None && (e matches
                WSError::ErrorParsingClientCommand(w) && w@ == self.command@),
            },
    {
        command::parse_command(self.command.as_str())
    }

    /// The command string as it came over the wire.
    pub fn get_native_command(&self) -> (r: &str)
        ensures
            r@ == self.command@,
    {
        self.command.as_str()
    }
}

/// An error report bound for a client; its command routes it to the peer's
/// error channel.
#[derive(Debug, Clone, PartialEq, Eq)]
pub struct WsErrorMessage {
    pub success: bool,
    pub info: String,
    pub command: String,
}

impl WsErrorMessage {
    /// Wrap a routing error: the flag is down, the description becomes the
    /// info text, and the command routes to `server:error`.
    pub fn err(error: WSError) -> (r: Self)
        ensures
            !r.success,
            r.info@ == spec_error_text(error),
            r.command@ == "server:error"@,
    {
        WsErrorMessage { success: false, info: error.message(), command: "server:error".to_owned() }
    }

    /// Wrap a custom error text the same way.
    pub fn err_custom(error: &str) -> (r: Self)
        ensures
            !r.success,
            r.info@ == error@,
            r.command@ == "server:error"@,
    {
        WsErrorMessage { success: false, info: error.to_owned(), command: "server:error".to_owned() }
    }

    /// The error report as a wire envelope: unsuccessful, with the
    /// description in the text field and never a payload.
    pub fn to_envelope(&self) -> (r: WebsocketMessage)
        ensures
            r@ == (MessageView {
                success: self.success,
                cmd: self.command@,
                text: Some(self.info@),
                args: None,
                payload: None,
            }),
    {
        WebsocketMessage {
            success: self.success,
            cmd: self.command.clone(),
            text: Some(self.info.clone()),
            args: None,
            payload: None,
        }
    }
}

/// A server's answer: a command, an info text and an optional payload value,
/// whose serialization is the application's business.
#[derive(Debug, Clone, PartialEq, Eq)]
pub struct WsServerMessage<T> {
    pub success: bool,
    pub info: String,
    pub command: String,
    pub payload: Option<T>,
}

impl<T> WsServerMessage<T> {
    pub fn get_payload(&self) -> (r: &Option<T>)
        ensures
            *r == self.payload,
    {
        &self.payload
    }

    /// A successful answer carrying a payload value.
    pub fn new(obj: T, command: &str) -> (r: WsServerMessage<T>)
        ensures
            r.success,
            r.info@ == ""@,
            r.command@ == command@,
            r.payload == Some(obj),
    {
        WsServerMessage {
            success: true,
            info: "".to_owned(),
            command: command.to_owned(),
            payload: Some(obj),
        }
    }

    /// A successful answer carrying a payload value and an info text.
    pub fn new_with_message(obj: T, command: &str, info: &str) -> (r: WsServerMessage<T>)
        ensures
            r.success,
            r.info@ == info@,
            r.command@ == command@,
            r.payload == Some(obj),
    {
        WsServerMessage {
            success: true,
            info: info.to_owned(),
            command: command.to_owned(),
            payload: Some(obj),
        }
    }
}

impl<T> Default for WsServerMessage<T> {
    /// The empty answer: unsuccessful, no payload, routed to `server:none`.
    fn default() -> (r: Self)
        ensures
            !r.success,
            r.info@ == ""@,
            r.command@ == "server:none"@,
            r.payload is None,
    {
        WsServerMessage {
            success: false,
            info: "".to_owned(),
            command: "server:none".to_owned(),
            payload: None,
        }
    }
}

impl WsService {
    /// Encode the error report once and enqueue it for one peer;
    /// `NoSuchPeer` comes exactly when the peer is gone, and is logged, not
    /// fatal: the peer may simply have disconnected already.
    pub fn error_to_client(&self, id: u64, error: &WsErrorMessage) -> (r: Result<bool, SendError>)
        ensures
            r is Ok <==> self@.contains(id),
            r is Err ==> r == Err::<bool, SendError>(SendError::NoSuchPeer),
    {
        let frame = OutboundFrame::Data(codec::encode(&error.to_envelope()));
        self.message_to_client(id, &frame)
    }

    /// Encode the error report once and enqueue it on every registered
    /// connection.
    pub fn error_to_all(&self, error: &WsErrorMessage) -> (r: Vec<(u64, bool)>)
        ensures
            r@.map_values(|p: (u64, bool)| p.0) == self@,
    {
        let frame = OutboundFrame::Data(codec::encode(&error.to_envelope()));
        self.broadcast_all(&frame)
    }
}

} // verus!
