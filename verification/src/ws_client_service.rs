//! Routing of a client's message: parse its command and admit it only under
//! the client scheme.  The caller hands an admitted command to the
//! application handler and sends the error report back on rejection.

use vstd::prelude::*;
use crate::command;
use crate::command::Command;
use crate::ws_error::WSError;
use crate::ws_message::WsClientMessage;

verus! {

/// The one scheme (command target) that the server accepts from clients.
pub open spec fn spec_client_scheme() -> Seq<char> {
    "client"@
}

/// The client scheme, `client`.
pub fn client_scheme() -> (r: &'static str)
    ensures
        r@ == spec_client_scheme(),
{
    "client"
}

/// Routes client messages to the application.
pub struct WsClientService;

impl WsClientService {
    /// Decide what to do with one client message: parse its command, check
    /// the scheme, and yield the parsed command for the handler, or the
    /// error to report back — a bad message never panics and never ends the
    /// session.
    pub fn process_messages(message: &WsClientMessage) -> (r: Result<Command, WSError>)
        ensures
            match command::spec_parse_command(message.command@) {
                None => r matches Err(WSError::ErrorParsingClientCommand(w)) && w@
                    == message.command@,
                Some(cv) => if cv.target == spec_client_scheme() {
                    r matches Ok(c) && c@ == cv
                } else {
                    r matches Err(WSError::ErrorCommandScheme(w)) && w@ == cv.target
                },
            },
    {
        let cmd = match message.get_command() {
            Ok(c) => c,
            Err(e) => {
                return Err(e);
            },
        };
        if command::str_eq(cmd.target.as_str(), client_scheme()) {
            Ok(cmd)
        } else {
            Err(WSError::ErrorCommandScheme(cmd.target))
        }
    }
}

} // verus!
