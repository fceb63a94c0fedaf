//! The per-connection session pump, as a state machine.  The pump races
//! "forward the local outbound queue to the socket" against "read the
//! socket, decode, dispatch": when either side completes or fails the whole
//! session closes and the connection's registry entry goes away.  A frame
//! that fails to decode is discarded and the session lives on.  The caller
//! performs the I/O and feeds the events in; the functions here decide.

use vstd::prelude::*;
use crate::codec;
use crate::codec::CodecError;
use crate::message::{MessageView, WebsocketMessage};

verus! {

/// Where a session stands.
#[derive(Debug, Clone, Copy, PartialEq, Eq)]
pub enum SessionState {
    /// The transport handshake is in flight.
    Connecting,
    /// Both pump halves run.
    Connected,
    /// One half has completed or failed; the other is being abandoned.
    Closing,
    /// The session is over.
    Closed,
}

/// What the transport or the local outbound queue reported.
#[derive(Debug, Clone, PartialEq, Eq)]
pub enum SessionEvent {
    /// The transport handshake completed.
    HandshakeCompleted,
    /// The transport handshake failed.
    HandshakeFailed,
    /// One data frame arrived.
    InboundData(Vec<u8>),
    /// A ping control frame arrived; it never reaches the handler.
    InboundPing,
    /// A pong control frame arrived; it never reaches the handler.
    InboundPong,
    /// The peer sent a close frame.
    InboundClose,
    /// Reading from the socket failed.
    ReadError,
    /// Writing to the socket failed.
    WriteError,
    /// The local outbound queue closed: nothing more will be forwarded.
    OutboundClosed,
}

/// What the caller must do next.
#[derive(Debug, Clone, PartialEq, Eq)]
pub enum SessionAction {
    /// Put the connection's outbound channel into the registry (server) or
    /// the client slot.
    Register,
    /// Hand the decoded envelope to the application handler.
    Dispatch(WebsocketMessage),
    /// Drop the frame and log the decode failure; the session lives on.
    DiscardFrame(CodecError),
    /// Refresh the liveness marker; the frame never reaches the handler.
    MarkAlive,
    /// Remove the connection's registry entry / clear the client slot: the
    /// one authoritative "connection ended" signal.
    Deregister,
    /// Nothing to do.
    Keep,
}

/// One step of the session state machine.  On handshake completion the
/// connection is registered; a terminal event moves a connected session to
/// `Closing` and deregisters it, exactly once; a data frame is decoded and
/// dispatched, or discarded on decode failure with the session intact; ping
/// and pong frames never reach the handler.
pub fn session_step(state: SessionState, event: SessionEvent) -> (r: (
    SessionState,
    SessionAction,
))
    ensures
        match state {
            SessionState::Connecting => match event {
                SessionEvent::HandshakeCompleted => r == (
                    SessionState::Connected,
                    SessionAction::Register,
                ),
                SessionEvent::HandshakeFailed => r == (
                    SessionState::Closed,
                    SessionAction::Keep,
                ),
                _ => r == (SessionState::Connecting, SessionAction::Keep),
            },
            SessionState::Connected => match event {
                SessionEvent::InboundData(frame) => ({
                    &&& r.0 == SessionState::Connected
                    &&& match codec::spec_decode(frame@) {
                        Some(v) => r.1 matches SessionAction::Dispatch(m) && m@ == v,
                        None => r.1 is DiscardFrame,
                    }
                }),
                SessionEvent::InboundPing => r == (
                    SessionState::Connected,
                    SessionAction::MarkAlive,
                ),
                SessionEvent::InboundPong => r == (SessionState::Connected, SessionAction::Keep),
                _ => r == (SessionState::Closing, SessionAction::Deregister),
            },
            SessionState::Closing => r == (SessionState::Closed, SessionAction::Keep),
            SessionState::Closed => r == (SessionState::Closed, SessionAction::Keep),
        },
{
    match state {
        SessionState::Connecting => match event {
            SessionEvent::HandshakeCompleted => (SessionState::Connected, SessionAction::Register),
            SessionEvent::HandshakeFailed => (SessionState::Closed, SessionAction::Keep),
            _ => (SessionState::Connecting, SessionAction::Keep),
        },
        SessionState::Connected => match event {
            SessionEvent::InboundData(frame) => match codec::decode(&frame) {
                Ok(m) => (SessionState::Connected, SessionAction::Dispatch(m)),
                Err(e) => (SessionState::Connected, SessionAction::DiscardFrame(e)),
            },
            SessionEvent::InboundPing => (SessionState::Connected, SessionAction::MarkAlive),
            SessionEvent::InboundPong => (SessionState::Connected, SessionAction::Keep),
            _ => (SessionState::Closing, SessionAction::Deregister),
        },
        SessionState::Closing => (SessionState::Closed, SessionAction::Keep),
        SessionState::Closed => (SessionState::Closed, SessionAction::Keep),
    }
}

/// The envelopes that a sequence of inbound data frames dispatches: the
/// decodable ones, in arrival order.  A frame that fails to decode is
/// skipped, and what follows it is still dispatched.
pub open spec fn spec_dispatched(frames: Seq<Seq<u8>>) -> Seq<MessageView>
    decreases frames.len(),
{
    if frames.len() == 0 {
        Seq::empty()
    } else {
        spec_dispatched(frames.drop_last()) + (match codec::spec_decode(frames.last()) {
            Some(v) => seq![v],
            None => Seq::<MessageView>::empty(),
        })
    }
}

/// How many of the frames fail to decode (each is logged and dropped).
pub open spec fn spec_discarded(frames: Seq<Seq<u8>>) -> nat
    decreases frames.len(),
{
    if frames.len() == 0 {
        0
    } else {
        spec_discarded(frames.drop_last()) + (match codec::spec_decode(frames.last()) {
            Some(v) => 0nat,
            None => 1nat,
        })
    }
}

/// Run the read half of the pump over a sequence of inbound data frames:
/// every decodable frame is dispatched, in order; every undecodable one is
/// counted as discarded and the loop continues, so a malformed frame never
/// tears the session down by itself.
pub fn pump_inbound(frames: &Vec<Vec<u8>>) -> (r: (Vec<WebsocketMessage>, usize))
    ensures
        r.0@.len() == spec_dispatched(frames.deep_view()).len(),
        forall|j: int|
            0 <= j < r.0@.len() ==> (#[trigger] r.0@[j])@ == spec_dispatched(frames.deep_view())[j],
        r.1 == spec_discarded(frames.deep_view()),
        r.0@.len() + r.1 == frames@.len(),
{
    let ghost all = frames.deep_view();
    let mut dispatched: Vec<WebsocketMessage> = Vec::new();
    let mut discarded: usize = 0;
    let mut i: usize = 0;
    while i < frames.len()
        invariant
            0 <= i <= frames@.len(),
            all == frames.deep_view(),
            all.len() == frames@.len(),
            dispatched@.len() == spec_dispatched(all.take(i as int)).len(),
            forall|j: int|
                0 <= j < dispatched@.len() ==> (#[trigger] dispatched@[j])@ == spec_dispatched(
                    all.take(i as int),
                )[j],
            discarded == spec_discarded(all.take(i as int)),
            dispatched@.len() + discarded == i,
        decreases frames@.len() - i,
    {
        proof {
            assert(all.take(i as int + 1).drop_last() =~= all.take(i as int));
            assert(all.take(i as int + 1).last() == all[i as int]);
            assert(all[i as int] =~= frames@[i as int]@);
        }
        match codec::decode(&frames[i]) {
            Ok(m) => {
                dispatched.push(m);
            },
            Err(_) => {
                discarded = discarded + 1;
            },
        }
        i = i + 1;
    }
    proof {
        assert(all.take(frames@.len() as int) =~= all);
    }
    (dispatched, discarded)
}

} // verus!
