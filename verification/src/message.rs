//! The wire-level envelope: a routing command plus an optional text and an
//! optional opaque payload, with a success flag.  An envelope whose
//! `success` flag is false is an error report and carries its human-readable
//! description in `text`, never a payload.

use vstd::prelude::*;

verus! {

/// The mathematical model of an envelope.
#[verifier::ext_equal]
pub struct MessageView {
    pub success: bool,
    pub cmd: Seq<char>,
    pub text: Option<Seq<char>>,
    pub args: Option<Seq<Seq<char>>>,
    pub payload: Option<Seq<u8>>,
}

/// The envelope exchanged over a session.  `cmd` is the routing command,
/// written `target:method`; `args` is an optional ordered list of argument
/// strings; `payload` is an opaque byte sequence whose interpretation is
/// deferred to the application.
#[derive(Debug, Clone, PartialEq, Eq)]
pub struct WebsocketMessage {
    pub success: bool,
    pub cmd: String,
    pub text: Option<String>,
    pub args: Option<Vec<String>>,
    pub payload: Option<Vec<u8>>,
}

impl View for WebsocketMessage {
    type V = MessageView;

    open spec fn view(&self) -> MessageView {
        MessageView {
            success: self.success,
            cmd: self.cmd@,
            text: match self.text {
                Some(t) => Some(t@),
                None => None,
            },
            args: match self.args {
                Some(a) => Some(a.deep_view()),
                None => None,
            },
            payload: match self.payload {
                Some(p) => Some(p@),
                None => None,
            },
        }
    }
}

impl MessageView {
    /// An envelope that reports an error carries no semantic payload: the
    /// human-readable description sits in `text`.
    pub open spec fn well_formed(self) -> bool {
        !self.success ==> self.payload is None
    }
}

impl WebsocketMessage {
    /// A successful envelope whose data the caller has already serialized.
    pub fn new_payload(cmd: &str, payload: &[u8]) -> (r: Self)
        ensures
            r@ == (MessageView {
                success: true,
                cmd: cmd@,
                text: None,
                args: None,
                payload: Some(payload@),
            }),
            r@.well_formed(),
    {
        WebsocketMessage {
            success: true,
            cmd: cmd.to_owned(),
            text: None,
            args: None,
            payload: Some(vstd::slice::slice_to_vec(payload)),
        }
    }

    /// A successful envelope that carries a plain text.
    pub fn new_text(cmd: &str, text: &str) -> (r: Self)
        ensures
            r@ == (MessageView {
                success: true,
                cmd: cmd@,
                text: Some(text@),
                args: None,
                payload: None,
            }),
            r@.well_formed(),
    {
        WebsocketMessage {
            success: true,
            cmd: cmd.to_owned(),
            text: Some(text.to_owned()),
            args: None,
            payload: None,
        }
    }

    /// An error envelope: the flag is down and the description rides in
    /// `text`.
    pub fn new_error(cmd: &str, text: &str) -> (r: Self)
        ensures
            r@ == (MessageView {
                success: false,
                cmd: cmd@,
                text: Some(text@),
                args: None,
                payload: None,
            }),
            r@.well_formed(),
    {
        WebsocketMessage {
            success: false,
            cmd: cmd.to_owned(),
            text: Some(text.to_owned()),
            args: None,
            payload: None,
        }
    }

    /// The serialized application object inside this envelope, if any.
    /// Deserializing it is the application's business; this only decides
    /// whether there is one.
    pub fn payload_bytes(&self) -> (r: Option<&Vec<u8>>)
        ensures
            match r {
                Some(p) => self@.payload == Some(p@),
                None => self@.payload is None,
            },
    {
        match &self.payload {
            Some(p) => Some(p),
            None => None,
        }
    }
}

} // verus!
