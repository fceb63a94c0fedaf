//! The server-side write surface: broadcast to all, broadcast except the
//! sender, and unicast.  Each operation encodes the envelope exactly once
//! and reuses the registry's delivery primitives.

use vstd::prelude::*;
use futures_channel::mpsc::UnboundedSender;
use crate::codec;
use crate::message::WebsocketMessage;
use crate::registry::{spec_remove_id, OutboundFrame, SendError, WsService};

verus! {

/// A server: the registry of its live connections together with the
/// envelope-level delivery operations.  Its model is the registry's: the
/// sequence of registered peer identities.
pub struct Server {
    service: WsService,
}

impl View for Server {
    type V = Seq<u64>;

    closed spec fn view(&self) -> Seq<u64> {
        self.service@
    }
}

impl Server {
    pub closed spec fn inv(&self) -> bool {
        self.service.inv()
    }

    /// The outbound channel registered under the identity, if any.
    pub closed spec fn spec_sender_of(&self, id: u64) -> Option<
        UnboundedSender<OutboundFrame>,
    > {
        self.service.spec_sender_of(id)
    }

    /// A server with no connections yet.
    pub fn new() -> (r: Self)
        ensures
            r@ == Seq::<u64>::empty(),
            forall|k: u64| r.spec_sender_of(k) is None,
            r.inv(),
    {
        Server { service: WsService::new() }
    }

    pub fn len(&self) -> (r: usize)
        ensures
            r == self@.len(),
    {
        self.service.len()
    }

    pub fn contains(&self, id: u64) -> (r: bool)
        ensures
            r == self@.contains(id),
    {
        self.service.contains(id)
    }

    /// The registered identities, in registry order.
    pub fn ids(&self) -> (r: Vec<u64>)
        ensures
            r@ == self@,
    {
        self.service.ids()
    }

    /// Insert an accepted connection's outbound channel under its peer
    /// identity; a duplicate insert replaces the previous handle.
    pub fn register(&mut self, id: u64, sender: UnboundedSender<OutboundFrame>)
        requires
            old(self).inv(),
        ensures
            final(self).inv(),
            final(self)@ == spec_remove_id(old(self)@, id).push(id),
            final(self).spec_sender_of(id) == Some(sender),
            forall|k: u64|
                k != id ==> final(self).spec_sender_of(k) == old(self).spec_sender_of(k),
    {
        self.service.register(id, sender);
    }

    /// Remove the connection registered under the identity; idempotent.
    pub fn deregister(&mut self, id: u64)
        requires
            old(self).inv(),
        ensures
            final(self).inv(),
            final(self)@ == spec_remove_id(old(self)@, id),
            final(self).spec_sender_of(id) is None,
            forall|k: u64|
                k != id ==> final(self).spec_sender_of(k) == old(self).spec_sender_of(k),
    {
        self.service.deregister(id);
    }

    /// Encode the envelope once and enqueue the frame on every registered
    /// connection: each registered peer gets exactly one enqueue attempt, and
    /// a failed one never stops the rest.
    pub fn broadcast_message_to_all(&self, msg: &WebsocketMessage) -> (r: Vec<(u64, bool)>)
        ensures
            r@.map_values(|p: (u64, bool)| p.0) == self@,
    {
        let frame = OutboundFrame::Data(codec::encode(msg));
        self.service.broadcast_all(&frame)
    }

    /// Encode the envelope once and enqueue the frame on every registered
    /// connection except the one registered under `except`.
    pub fn message_to_all_except_sender(&self, except: u64, msg: &WebsocketMessage) -> (r: Vec<
        (u64, bool),
    >)
        ensures
            r@.map_values(|p: (u64, bool)| p.0) == spec_remove_id(self@, except),
    {
        let frame = OutboundFrame::Data(codec::encode(msg));
        self.service.message_to_all_except_sender(except, &frame)
    }

    /// Encode the envelope once and enqueue it for one peer.  `NoSuchPeer`
    /// comes exactly when no connection is registered under the identity.
    pub fn send(&self, msg: &WebsocketMessage, target: u64) -> (r: Result<bool, SendError>)
        ensures
            r is Ok <==> self@.contains(target),
            r is Err ==> r == Err::<bool, SendError>(SendError::NoSuchPeer),
    {
        let frame = OutboundFrame::Data(codec::encode(msg));
        self.service.message_to_client(target, &frame)
    }

    /// Enqueue an already-encoded frame on every registered connection, for
    /// payloads framed by an application codec.
    pub fn broadcast_frame(&self, frame: &OutboundFrame) -> (r: Vec<(u64, bool)>)
        ensures
            r@.map_values(|p: (u64, bool)| p.0) == self@,
    {
        self.service.broadcast_all(frame)
    }

    /// Enqueue an already-encoded frame for one peer.
    pub fn send_frame_to(&self, target: u64, frame: &OutboundFrame) -> (r: Result<bool, SendError>)
        ensures
            r is Ok <==> self@.contains(target),
            r is Err ==> r == Err::<bool, SendError>(SendError::NoSuchPeer),
    {
        self.service.message_to_client(target, frame)
    }
}

} // verus!
