//! The errors of the command-processing stack.

use vstd::prelude::*;

verus! {

/// What went wrong while routing a client's message.
#[derive(Debug, Clone, PartialEq, Eq)]
pub enum WSError {
    /// The command string does not follow the `target:method?args` grammar.
    ErrorParsingClientCommand(String),
    /// The command's scheme (its target) is not the one the server accepts.
    ErrorCommandScheme(String),
    /// An incoming message could not be deserialized.
    ErrorDeserializeClientMessage(String),
}

/// The human-readable description of the error.
pub open spec fn spec_error_text(e: WSError) -> Seq<char> {
    match e {
        WSError::ErrorParsingClientCommand(c) => "error parsing the command: "@ + c@,
        WSError::ErrorCommandScheme(c) => "wrong command scheme: "@ + c@,
        WSError::ErrorDeserializeClientMessage(c) => "error deserializing the incoming message: "@
            + c@,
    }
}

impl WSError {
    /// The human-readable description, for logs and error envelopes.
    pub fn message(&self) -> (r: String)
        ensures
            r@ == spec_error_text(*self),
    {
        match self {
            WSError::ErrorParsingClientCommand(c) => {
                let mut m = "error parsing the command: ".to_owned();
                m.append(c.as_str());
                m
            },
            WSError::ErrorCommandScheme(c) => {
                let mut m = "wrong command scheme: ".to_owned();
                m.append(c.as_str());
                m
            },
            WSError::ErrorDeserializeClientMessage(c) => {
                let mut m = "error deserializing the incoming message: ".to_owned();
                m.append(c.as_str());
                m
            },
        }
    }
}

} // verus!
