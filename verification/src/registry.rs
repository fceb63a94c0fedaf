//! The server-side registry of live connections: a map from peer identity to
//! the connection's outbound channel, with broadcast, exclude-sender and
//! unicast delivery.  Its model is the sequence of registered peer
//! identities; a failed enqueue to one peer never stops delivery to the
//! others.

use vstd::prelude::*;
use futures_channel::mpsc::UnboundedSender;

verus! {

/// One frame bound for a peer's write half: either one encoded envelope or
/// a ping control frame.
#[derive(Debug, Clone, PartialEq, Eq)]
pub enum OutboundFrame {
    Data(Vec<u8>),
    Ping(Vec<u8>),
}

impl OutboundFrame {
    /// A copy carrying the same bytes, for handing one frame to many peers.
    pub fn duplicate(&self) -> (r: OutboundFrame)
        ensures
            match *self {
                OutboundFrame::Data(b) => r matches OutboundFrame::Data(b2) && b2@ == b@,
                OutboundFrame::Ping(p) => r matches OutboundFrame::Ping(p2) && p2@ == p@,
            },
    {
        match self {
            OutboundFrame::Data(b) => {
                let b2 = b.clone();
                proof {
                    assert(b2@ =~= b@);
                }
                OutboundFrame::Data(b2)
            },
            OutboundFrame::Ping(p) => {
                let p2 = p.clone();
                proof {
                    assert(p2@ =~= p@);
                }
                OutboundFrame::Ping(p2)
            },
        }
    }
}

/// Why a send was not delivered; none of these is fatal to the caller.
#[derive(Debug, Clone, PartialEq, Eq)]
pub enum SendError {
    /// No connection is registered under the given peer identity.
    NoSuchPeer,
    /// The client session holds no live connection.
    NotConnected,
}

/// futures_channel's unbounded sender, declared so a connection handle can
/// hold the sending half of its outbound channel.  The value is opaque: what
/// sits in the queue lies outside the model.
#[verifier::external_type_specification]
#[verifier::external_body]
#[verifier::reject_recursive_types(T)]
pub struct ExUnboundedSender<T>(UnboundedSender<T>);

/// Relies on futures_channel's `UnboundedSender::unbounded_send`: it
/// enqueues the frame for the receiving half and fails when every receiver
/// is gone.  Whether the peer is still there lies outside the model, so
/// nothing is promised of the outcome.
#[verifier::external_body]
pub(crate) fn send_frame_on(sender: &UnboundedSender<OutboundFrame>, frame: OutboundFrame) -> (delivered: bool) {
    sender.unbounded_send(frame).is_ok()
}

/// How a bounded enqueue went.
#[derive(Debug, Clone, PartialEq, Eq)]
pub enum EnqueueOutcome {
    /// The frame sits in the peer's outbound queue.
    Enqueued,
    /// The queue already held at least the limit; the frame was dropped
    /// rather than growing the queue without bound.  Carries the queue
    /// length that forced the drop.
    DroppedFull(usize),
    /// The receiving half is gone; the frame was not delivered.
    PeerGone,
}

/// Relies on futures_channel's `UnboundedSender::len`: the number of frames
/// queued for the receiving half, or 0 once it is disconnected.  The value
/// depends on the channel's shared state, so nothing more is promised of it.
#[verifier::external_body]
fn queued_frames(sender: &UnboundedSender<OutboundFrame>) -> (n: usize) {
    sender.len()
}

/// Enqueue under an explicit queue bound: a frame bound for a peer whose
/// outbound queue already holds `limit` or more frames is dropped, so a slow
/// consumer cannot grow the queue without bound.  The drop reports the queue
/// length that forced it, which is never below the limit.
pub fn send_frame_bounded(
    sender: &UnboundedSender<OutboundFrame>,
    frame: OutboundFrame,
    limit: usize,
) -> (r: EnqueueOutcome)
    ensures
        r matches EnqueueOutcome::DroppedFull(q) ==> q >= limit,
{
    let queued = queued_frames(sender);
    if queued >= limit {
        EnqueueOutcome::DroppedFull(queued)
    } else if send_frame_on(sender, frame) {
        EnqueueOutcome::Enqueued
    } else {
        EnqueueOutcome::PeerGone
    }
}

struct Entry {
    id: u64,
    sender: UnboundedSender<OutboundFrame>,
}

/// The outbound channel of the entry holding `id`, if one does.
spec fn spec_sender_at(entries: Seq<Entry>, id: u64) -> Option<UnboundedSender<OutboundFrame>>
    decreases entries.len(),
{
    if entries.len() == 0 {
        None
    } else if entries.last().id == id {
        Some(entries.last().sender)
    } else {
        spec_sender_at(entries.drop_last(), id)
    }
}

/// No entry holds the identity, so no channel is registered under it.
proof fn lemma_sender_at_absent(entries: Seq<Entry>, id: u64)
    requires
        forall|j: int| 0 <= j < entries.len() ==> entries[j].id != id,
    ensures
        spec_sender_at(entries, id) is None,
    decreases entries.len(),
{
    if entries.len() == 0 {
    } else {
        lemma_sender_at_absent(entries.drop_last(), id);
    }
}

/// Removing an entry of another identity does not touch the channel
/// registered under this one.
proof fn lemma_sender_at_remove(entries: Seq<Entry>, i: int, k: u64)
    requires
        0 <= i < entries.len(),
        entries[i].id != k,
    ensures
        spec_sender_at(entries.remove(i), k) == spec_sender_at(entries, k),
    decreases entries.len(),
{
    if i == entries.len() - 1 {
        assert(entries.remove(i) =~= entries.drop_last());
    } else {
        assert(entries.remove(i).last() == entries.last());
        assert(entries.remove(i).drop_last() =~= entries.drop_last().remove(i));
        if entries.last().id == k {
        } else {
            lemma_sender_at_remove(entries.drop_last(), i, k);
        }
    }
}

/// The registry.  Its model (`self@`) is the sequence of registered peer
/// identities, and `spec_sender_of` ties each to its channel; the invariant
/// `inv` keeps the identities unique.
pub struct WsService {
    entries: Vec<Entry>,
}

impl View for WsService {
    type V = Seq<u64>;

    closed spec fn view(&self) -> Seq<u64> {
        Seq::new(self.entries@.len(), |i: int| self.entries@[i].id)
    }
}

/// The identities left after removing one: the model of `deregister`.
pub open spec fn spec_remove_id(s: Seq<u64>, id: u64) -> Seq<u64>
    decreases s.len(),
{
    if s.len() == 0 {
        Seq::empty()
    } else {
        spec_remove_id(s.drop_last(), id) + (if s.last() == id {
            Seq::<u64>::empty()
        } else {
            seq![s.last()]
        })
    }
}

/// Removing an identity that does not occur changes nothing.
pub proof fn lemma_remove_id_noop(s: Seq<u64>, id: u64)
    requires
        forall|j: int| 0 <= j < s.len() ==> s[j] != id,
    ensures
        spec_remove_id(s, id) == s,
    decreases s.len(),
{
    if s.len() == 0 {
        assert(spec_remove_id(s, id) =~= s);
    } else {
        lemma_remove_id_noop(s.drop_last(), id);
        assert(spec_remove_id(s, id) =~= s);
    }
}

/// An identity survives the removal exactly when it occurred and is not the
/// one removed.
pub proof fn lemma_remove_id_contains(s: Seq<u64>, id: u64, k: u64)
    ensures
        spec_remove_id(s, id).contains(k) <==> (s.contains(k) && k != id),
    decreases s.len(),
{
    if s.len() == 0 {
    } else {
        lemma_remove_id_contains(s.drop_last(), id, k);
        assert(s.contains(k) <==> (s.drop_last().contains(k) || s.last() == k)) by {
            if s.contains(k) {
                let j = choose|j: int| 0 <= j < s.len() && s[j] == k;
                if j < s.len() - 1 {
                    assert(s.drop_last()[j] == k);
                }
            }
            if s.drop_last().contains(k) {
                let j = choose|j: int| 0 <= j < s.drop_last().len() && s.drop_last()[j] == k;
                assert(s[j] == k);
            }
        }
        if s.last() == id {
        } else {
            if spec_remove_id(s.drop_last(), id).contains(k) || s.last() == k {
                assert(spec_remove_id(s, id).contains(k)) by {
                    if s.last() == k {
                        assert(spec_remove_id(s, id).last() == k);
                    } else {
                        let j = choose|j: int|
                            0 <= j < spec_remove_id(s.drop_last(), id).len()
                                && spec_remove_id(s.drop_last(), id)[j] == k;
                        assert(spec_remove_id(s, id)[j] == k);
                    }
                }
            }
            if spec_remove_id(s, id).contains(k) {
                let j = choose|j: int|
                    0 <= j < spec_remove_id(s, id).len() && spec_remove_id(s, id)[j] == k;
                if j < spec_remove_id(s.drop_last(), id).len() {
                    assert(spec_remove_id(s.drop_last(), id)[j] == k);
                }
            }
        }
    }
}

/// Deregistering twice has the same effect on the registry model as
/// deregistering once.
pub proof fn lemma_deregister_idempotent(s: Seq<u64>, id: u64)
    ensures
        spec_remove_id(spec_remove_id(s, id), id) == spec_remove_id(s, id),
    decreases s.len(),
{
    if s.len() == 0 {
        assert(spec_remove_id(spec_remove_id(s, id), id) =~= spec_remove_id(s, id));
    } else {
        lemma_deregister_idempotent(s.drop_last(), id);
        if s.last() == id {
            assert(spec_remove_id(s, id) =~= spec_remove_id(s.drop_last(), id));
        } else {
            let r = spec_remove_id(s.drop_last(), id);
            assert(spec_remove_id(s, id) =~= r.push(s.last()));
            assert(spec_remove_id(r.push(s.last()), id) =~= spec_remove_id(r, id).push(s.last()))
                by {
                assert(r.push(s.last()).drop_last() =~= r);
                assert(spec_remove_id(r.push(s.last()), id) =~= spec_remove_id(r, id) + seq![
                    s.last(),
                ]);
                assert(spec_remove_id(r, id) + seq![s.last()] =~= spec_remove_id(r, id).push(
                    s.last(),
                ));
            }
        }
    }
}

impl WsService {
    /// The registered identities are unique: a duplicate insert replaces.
    pub closed spec fn inv(&self) -> bool {
        forall|i: int, j: int|
            0 <= i < j < self.entries@.len() ==> self.entries@[i].id != self.entries@[j].id
    }

    /// The outbound channel registered under the identity, if any.
    pub closed spec fn spec_sender_of(&self, id: u64) -> Option<
        UnboundedSender<OutboundFrame>,
    > {
        spec_sender_at(self.entries@, id)
    }

    /// An empty registry.
    pub fn new() -> (r: Self)
        ensures
            r@ == Seq::<u64>::empty(),
            forall|k: u64| r.spec_sender_of(k) is None,
            r.inv(),
    {
        let r = WsService { entries: Vec::new() };
        proof {
            assert(r@ =~= Seq::<u64>::empty());
            assert forall|k: u64| r.spec_sender_of(k) is None by {
                lemma_sender_at_absent(r.entries@, k);
            }
        }
        r
    }

    pub fn len(&self) -> (r: usize)
        ensures
            r == self@.len(),
    {
        self.entries.len()
    }

    pub fn contains(&self, id: u64) -> (r: bool)
        ensures
            r == self@.contains(id),
    {
        let mut i: usize = 0;
        while i < self.entries.len()
            invariant
                0 <= i <= self.entries@.len(),
                self@.len() == self.entries@.len(),
                forall|j: int| 0 <= j < i ==> self@[j] != id,
            decreases self.entries@.len() - i,
        {
            if self.entries[i].id == id {
                assert(self@[i as int] == id);
                return true;
            }
            i = i + 1;
        }
        assert(!self@.contains(id));
        false
    }

    /// The registered identities, in registry order.
    pub fn ids(&self) -> (r: Vec<u64>)
        ensures
            r@ == self@,
    {
        let mut out: Vec<u64> = Vec::new();
        let mut i: usize = 0;
        while i < self.entries.len()
            invariant
                0 <= i <= self.entries@.len(),
                self@.len() == self.entries@.len(),
                out@ =~= self@.take(i as int),
            decreases self.entries@.len() - i,
        {
            out.push(self.entries[i].id);
            assert(out@ =~= self@.take(i as int + 1));
            i = i + 1;
        }
        assert(out@ =~= self@);
        out
    }

    /// Insert a connection under its peer identity; a second insert for the
    /// same identity replaces the previous handle, which is from then on
    /// orphaned and fails its sends gracefully.
    pub fn register(&mut self, id: u64, sender: UnboundedSender<OutboundFrame>)
        requires
            old(self).inv(),
        ensures
            final(self).inv(),
            final(self)@ == spec_remove_id(old(self)@, id).push(id),
            final(self).spec_sender_of(id) == Some(sender),
            forall|k: u64|
                k != id ==> final(self).spec_sender_of(k) == old(self).spec_sender_of(k),
    {
        self.deregister(id);
        let ghost mid = self@;
        let ghost mid_entries = self.entries@;
        self.entries.push(Entry { id, sender });
        proof {
            assert(self.entries@.last() == (Entry { id, sender }));
            assert(self.entries@.drop_last() =~= mid_entries);
            assert forall|k: u64|
                k != id implies self.spec_sender_of(k) == spec_sender_at(mid_entries, k) by {
            }
            assert(self@ =~= mid.push(id));
            lemma_remove_id_contains(old(self)@, id, id);
            assert forall|j: int| 0 <= j < mid_entries.len() implies mid_entries[j].id != id by {
                if mid_entries[j].id == id {
                    assert(mid[j] == id);
                    assert(mid.contains(id));
                }
            }
            assert forall|a: int, b: int|
                0 <= a < b < self.entries@.len() implies self.entries@[a].id
                != self.entries@[b].id by {
                if b < mid_entries.len() {
                    assert(self.entries@[a] == mid_entries[a]);
                    assert(self.entries@[b] == mid_entries[b]);
                } else {
                    assert(self.entries@[a] == mid_entries[a]);
                    assert(self.entries@[b].id == id);
                }
            }
        }
    }

    /// Remove the connection registered under the identity, if any.  Absent
    /// identities are a no-op: deregistration is idempotent.
    pub fn deregister(&mut self, id: u64)
        requires
            old(self).inv(),
        ensures
            final(self).inv(),
            final(self)@ == spec_remove_id(old(self)@, id),
            final(self).spec_sender_of(id) is None,
            forall|k: u64|
                k != id ==> final(self).spec_sender_of(k) == old(self).spec_sender_of(k),
    {
        let mut i: usize = 0;
        while i < self.entries.len()
            invariant
                old(self) == self,
                self.inv(),
                0 <= i <= self.entries@.len(),
                self@.len() == self.entries@.len(),
                forall|j: int| 0 <= j < i ==> self@[j] != id,
            decreases self.entries@.len() - i,
        {
            if self.entries[i].id == id {
                let ghost pre = self@;
                let ghost pre_entries = self.entries@;
                self.entries.remove(i);
                proof {
                    assert(self@ =~= pre.remove(i as int));
                    assert forall|j: int| i < j < pre.len() implies pre[j] != id by {
                        assert(pre_entries[i as int].id == id);
                        assert(pre[j] == pre_entries[j].id);
                    }
                    lemma_remove_unique_id(pre, i as int, id);
                    assert(self.entries@ =~= pre_entries.remove(i as int));
                    assert forall|k: u64|
                        k != id implies self.spec_sender_of(k) == spec_sender_at(
                        pre_entries,
                        k,
                    ) by {
                        lemma_sender_at_remove(pre_entries, i as int, k);
                    }
                    assert forall|j: int|
                        0 <= j < self.entries@.len() implies self.entries@[j].id != id by {
                        let j0 = if j < i {
                            j
                        } else {
                            j + 1
                        };
                        assert(self.entries@[j] == pre_entries[j0]);
                        assert(pre[j0] == pre_entries[j0].id);
                    }
                    lemma_sender_at_absent(self.entries@, id);
                    assert forall|a: int, b: int|
                        0 <= a < b < self.entries@.len() implies self.entries@[a].id
                        != self.entries@[b].id by {
                        let a0 = if a < i {
                            a
                        } else {
                            a + 1
                        };
                        let b0 = if b < i {
                            b
                        } else {
                            b + 1
                        };
                        assert(self.entries@[a] == pre_entries[a0]);
                        assert(self.entries@[b] == pre_entries[b0]);
                    }
                }
                return ;
            }
            i = i + 1;
        }
        proof {
            lemma_remove_id_noop(self@, id);
            assert forall|j: int|
                0 <= j < self.entries@.len() implies self.entries@[j].id != id by {
                assert(self@[j] == self.entries@[j].id);
            }
            lemma_sender_at_absent(self.entries@, id);
        }
    }

    /// Enqueue one frame on every registered connection: each of the N
    /// registered peers gets exactly one enqueue attempt, in registry order,
    /// and a failed enqueue (peer already gone) never stops the rest.
    pub fn broadcast_all(&self, frame: &OutboundFrame) -> (r: Vec<(u64, bool)>)
        ensures
            r@.map_values(|p: (u64, bool)| p.0) == self@,
    {
        let mut out: Vec<(u64, bool)> = Vec::new();
        let mut i: usize = 0;
        while i < self.entries.len()
            invariant
                0 <= i <= self.entries@.len(),
                self@.len() == self.entries@.len(),
                out@.len() == i,
                forall|j: int| 0 <= j < i ==> (#[trigger] out@[j]).0 == self@[j],
            decreases self.entries@.len() - i,
        {
            let delivered = send_frame_on(&self.entries[i].sender, frame.duplicate());
            out.push((self.entries[i].id, delivered));
            i = i + 1;
        }
        proof {
            assert(out@.map_values(|p: (u64, bool)| p.0) =~= self@);
        }
        out
    }

    /// Enqueue one frame on every registered connection except the one
    /// registered under `except`: exactly the other peers get one enqueue
    /// attempt each, in registry order.
    pub fn message_to_all_except_sender(&self, except: u64, frame: &OutboundFrame) -> (r: Vec<
        (u64, bool),
    >)
        ensures
            r@.map_values(|p: (u64, bool)| p.0) == spec_remove_id(self@, except),
    {
        let mut out: Vec<(u64, bool)> = Vec::new();
        let mut i: usize = 0;
        while i < self.entries.len()
            invariant
                0 <= i <= self.entries@.len(),
                self@.len() == self.entries@.len(),
                out@.len() == spec_remove_id(self@.take(i as int), except).len(),
                forall|j: int|
                    0 <= j < out@.len() ==> (#[trigger] out@[j]).0 == spec_remove_id(
                        self@.take(i as int),
                        except,
                    )[j],
            decreases self.entries@.len() - i,
        {
            let ghost prev = spec_remove_id(self@.take(i as int), except);
            proof {
                assert(self@.take(i as int + 1).drop_last() =~= self@.take(i as int));
                assert(self@.take(i as int + 1).last() == self@[i as int]);
                assert(spec_remove_id(self@.take(i as int + 1), except) =~= (if self@[i as int]
                    == except {
                    prev
                } else {
                    prev.push(self@[i as int])
                }));
            }
            if self.entries[i].id != except {
                let delivered = send_frame_on(&self.entries[i].sender, frame.duplicate());
                out.push((self.entries[i].id, delivered));
            }
            i = i + 1;
        }
        proof {
            assert(self@.take(self@.len() as int) =~= self@);
            assert(out@.map_values(|p: (u64, bool)| p.0) =~= spec_remove_id(self@, except));
        }
        out
    }

    /// Enqueue one frame on the connection registered under `id`.  The
    /// caller observes `NoSuchPeer` exactly when no such connection is
    /// registered; that is logged by the caller, never fatal.
    pub fn message_to_client(&self, id: u64, frame: &OutboundFrame) -> (r: Result<bool, SendError>)
        ensures
            r is Ok <==> self@.contains(id),
            r is Err ==> r == Err::<bool, SendError>(SendError::NoSuchPeer),
    {
        let mut i: usize = 0;
        while i < self.entries.len()
            invariant
                0 <= i <= self.entries@.len(),
                self@.len() == self.entries@.len(),
                forall|j: int| 0 <= j < i ==> self@[j] != id,
            decreases self.entries@.len() - i,
        {
            if self.entries[i].id == id {
                assert(self@[i as int] == id);
                let delivered = send_frame_on(&self.entries[i].sender, frame.duplicate());
                return Ok(delivered);
            }
            i = i + 1;
        }
        assert(!self@.contains(id));
        Err(SendError::NoSuchPeer)
    }
}

/// Removing the only occurrence of an identity at its index is what
/// `spec_remove_id` describes.
proof fn lemma_remove_unique_id(s: Seq<u64>, i: int, id: u64)
    requires
        0 <= i < s.len(),
        s[i] == id,
        forall|j: int| 0 <= j < i ==> s[j] != id,
        forall|j: int| i < j < s.len() ==> s[j] != id,
    ensures
        s.remove(i) == spec_remove_id(s, id),
    decreases s.len(),
{
    if i == s.len() - 1 {
        lemma_remove_id_noop(s.drop_last(), id);
        assert(s.remove(i) =~= s.drop_last());
        assert(spec_remove_id(s, id) =~= s.drop_last());
    } else {
        lemma_remove_unique_id(s.drop_last(), i, id);
        assert(spec_remove_id(s, id) =~= s.drop_last().remove(i).push(s.last()));
        assert(s.remove(i) =~= s.drop_last().remove(i).push(s.last()));
    }
}

} // verus!
