//! The client-side session state: whether a session is live and, when it is,
//! the outbound channel of that session.  The reconnect supervisor mutates
//! it; the application reads it through `is_connected` and sends through
//! `send_message` / `ping`, which fail gracefully when no session is live.

use vstd::prelude::*;
use futures_channel::mpsc::UnboundedSender;
use crate::codec;
use crate::message::WebsocketMessage;
use crate::registry::{OutboundFrame, SendError};

verus! {

/// One logical client's session state.
pub struct Client {
    connected: bool,
    sender: Option<UnboundedSender<OutboundFrame>>,
}

impl Client {
    /// Whether a session is currently live.
    pub closed spec fn spec_connected(&self) -> bool {
        self.connected
    }

    /// The outbound channel of the live session, if any.
    pub closed spec fn spec_sender(&self) -> Option<UnboundedSender<OutboundFrame>> {
        self.sender
    }

    /// A live session always has an outbound channel to send on.
    pub closed spec fn inv(&self) -> bool {
        self.connected ==> self.sender is Some
    }

    /// A client that has not connected yet.
    pub fn new() -> (r: Self)
        ensures
            !r.spec_connected(),
            r.spec_sender() is None,
            r.inv(),
    {
        Client { connected: false, sender: None }
    }

    /// A session came up: remember its outbound channel.  A second call
    /// replaces the previous session's channel, so at most one session is
    /// active per logical client; the replaced channel is orphaned and its
    /// sends fail gracefully.
    pub fn connect(&mut self, sender: UnboundedSender<OutboundFrame>)
        ensures
            final(self).spec_connected(),
            final(self).spec_sender() == Some(sender),
            final(self).inv(),
    {
        self.sender = Some(sender);
        self.connected = true;
    }

    /// The session ended: clear the channel slot.  Idempotent.
    pub fn disconnect(&mut self)
        ensures
            !final(self).spec_connected(),
            final(self).spec_sender() is None,
            final(self).inv(),
    {
        self.connected = false;
        self.sender = None;
    }

    /// Whether a session is live, as the application sees it.
    pub fn is_connected(&self) -> (r: bool)
        ensures
            r == self.spec_connected(),
    {
        self.connected
    }

    /// Encode the envelope and enqueue it on the live session's channel.
    /// With no live session it returns `NotConnected` and nothing else
    /// happens: sending never panics, whatever the session state.
    pub fn send_message(&self, msg: &WebsocketMessage) -> (r: Result<bool, SendError>)
        requires
            self.inv(),
        ensures
            r is Err <==> !self.spec_connected(),
            r is Err ==> r == Err::<bool, SendError>(SendError::NotConnected),
    {
        if self.connected {
            match &self.sender {
                Some(s) => {
                    let frame = OutboundFrame::Data(codec::encode(msg));
                    Ok(crate::registry::send_frame_on(s, frame))
                },
                None => vstd::pervasive::unreached(),
            }
        } else {
            Err(SendError::NotConnected)
        }
    }

    /// Like `send_message`, but under an explicit queue bound: when the live
    /// session's outbound queue already holds `limit` or more frames the
    /// envelope is dropped instead of growing the queue without bound.
    pub fn send_message_bounded(&self, msg: &WebsocketMessage, limit: usize) -> (r: Result<
        crate::registry::EnqueueOutcome,
        SendError,
    >)
        requires
            self.inv(),
        ensures
            r is Err <==> !self.spec_connected(),
            r is Err ==> r == Err::<crate::registry::EnqueueOutcome, SendError>(
                SendError::NotConnected,
            ),
            r matches Ok(crate::registry::EnqueueOutcome::DroppedFull(q)) ==> q >= limit,
    {
        if self.connected {
            match &self.sender {
                Some(s) => {
                    let frame = OutboundFrame::Data(codec::encode(msg));
                    Ok(crate::registry::send_frame_bounded(s, frame, limit))
                },
                None => vstd::pervasive::unreached(),
            }
        } else {
            Err(SendError::NotConnected)
        }
    }

    /// Enqueue a ping control frame on the live session's channel, to probe
    /// liveness.  Fails gracefully with `NotConnected` when no session is
    /// live.
    pub fn ping(&self) -> (r: Result<bool, SendError>)
        requires
            self.inv(),
        ensures
            r is Err <==> !self.spec_connected(),
            r is Err ==> r == Err::<bool, SendError>(SendError::NotConnected),
    {
        if self.connected {
            match &self.sender {
                Some(s) => {
                    let mut probe: Vec<u8> = Vec::new();
                    probe.push(12u8);
                    Ok(crate::registry::send_frame_on(s, OutboundFrame::Ping(probe)))
                },
                None => vstd::pervasive::unreached(),
            }
        } else {
            Err(SendError::NotConnected)
        }
    }
}

} // verus!
