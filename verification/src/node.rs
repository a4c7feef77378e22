//! The replication/announce layer: the node's decisions over discovery,
//! storage and gossip.
//!
//! The node reacts to gossip messages and query events with pure decisions:
//! what to change in its own state and what to send. Performing the network
//! sends, the signing and the signature checks is the surrounding process's
//! work; the decisions here are exact. A message whose signature failed
//! verification is silently dropped. A query that finds no active peers
//! resolves to not-found at once, and a query response is accepted only if
//! its payload hashes to the identifier that was asked for.

use vstd::prelude::*;
use crate::addr::{identify, sha256_of, ContentId};
use crate::gossip::{spec_record, AnnounceTable, GossipMessage, MessageKind, MessageModel};
use crate::hex::copy_bytes;
use crate::identity::PeerIdentity;
use crate::peer::{spec_active, PeerTable};
use crate::store::{spec_find, spec_put, LocalStore};

verus! {

/// The error taxonomy of the node. Storage failures surface to the caller;
/// integrity and signature failures are contained and degrade to "no
/// answer"; an unreachable peer only moves the fetch on to the next
/// candidate.
#[derive(Clone, Copy, Debug, PartialEq, Eq, Structural)]
pub enum NodeError {
    StorageIo,
    ContentIntegrity,
    SignatureVerification,
    PeerUnreachable,
}

/// What the node asks its surroundings to do after handling a message.
pub enum NodeAction {
    /// Nothing: the message was dropped or needed no reply.
    Ignore,
    /// Send a query response for `id` directly to peer `to`, not broadcast.
    Respond { to: Vec<u8>, id: Vec<u8> },
    /// Fetch the payload of `id` directly from peer `from`, then verify it.
    Fetch { from: Vec<u8>, id: Vec<u8> },
}

/// A cache-miss query in flight: what was asked for, when, and how long to
/// wait.
pub struct QueryAttempt {
    pub id: Vec<u8>,
    pub started_at: u64,
    pub timeout: u64,
}

impl QueryAttempt {
    /// A query asks for a full-length identifier.
    pub open spec fn wf(&self) -> bool {
        self.id@.len() == 32
    }
}

/// How a query stands after an event: resolved with verified bytes, resolved
/// to not-found, or still waiting within its timeout.
pub enum QueryOutcome {
    Found(Vec<u8>),
    NotFound,
    Waiting,
}

/// An event a pending query can receive: a peer's response carrying payload
/// bytes, or a clock tick.
pub enum QueryEvent {
    Response { sender: Vec<u8>, payload: Vec<u8> },
    Tick,
}

/// Checks a fetched payload against the identifier it was requested under,
/// by recomputing its content identifier. A mismatch is a
/// `ContentIntegrityError`: the payload must be discarded, neither stored nor
/// returned.
pub fn verify_response(requested: &ContentId, payload: &[u8]) -> (r: Result<(), NodeError>)
    ensures
        match r {
            Ok(()) => sha256_of(payload@) == requested@,
            Err(e) => sha256_of(payload@) != requested@ && e == NodeError::ContentIntegrity,
        },
{
    let computed = identify(payload);
    if computed.matches(requested) {
        Ok(())
    } else {
        Err(NodeError::ContentIntegrity)
    }
}

/// The node: its identity, its local store, the peers discovery found, and
/// the announcements gossip brought. Built once at startup and handed to
/// the discovery, gossip and boundary tasks.
pub struct NodeState {
    pub identity: PeerIdentity,
    pub store: LocalStore,
    pub peers: PeerTable,
    pub announces: AnnounceTable,
}

impl NodeState {
    /// The node's components are well-formed.
    pub open spec fn wf(&self) -> bool {
        &&& self.identity.wf()
        &&& self.store.wf()
        &&& self.peers.wf()
    }

    /// A fresh node around an identity: empty store, no peers, no
    /// announcements.
    pub fn new(identity: PeerIdentity) -> (r: NodeState)
        requires
            identity.wf(),
        ensures
            r.identity@ == identity@,
            r.store@ == Seq::<crate::store::StoredObjectModel>::empty(),
            r.peers@ == Seq::<crate::peer::PeerRecordModel>::empty(),
            r.announces@ == Seq::<(Seq<u8>, Seq<u8>)>::empty(),
            r.wf(),
    {
        NodeState {
            identity,
            store: LocalStore::new(),
            peers: PeerTable::new(),
            announces: AnnounceTable::new(),
        }
    }

    /// Stores a payload locally and builds the announcement to broadcast:
    /// whenever a store succeeds, every active peer is told the node now
    /// holds the identifier. The message still lacks its signature.
    pub fn put_local(&mut self, payload: &[u8], now: u64) -> (r: (ContentId, GossipMessage))
        requires
            old(self).wf(),
        ensures
            final(self).wf(),
            final(self).store@ == spec_put(old(self).store@, payload@, now),
            final(self).identity@ == old(self).identity@,
            final(self).peers@ == old(self).peers@,
            final(self).announces@ == old(self).announces@,
            r.0@ == sha256_of(payload@),
            r.0.wf(),
            r.1@ == (MessageModel {
                kind: MessageKind::Announce,
                sender: old(self).identity@.peer_id,
                id: sha256_of(payload@),
                sig: Seq::<u8>::empty(),
            }),
            r.1.wf(),
    {
        let id = self.store.put(payload, now);
        let msg = GossipMessage::new(
            MessageKind::Announce,
            copy_bytes(self.identity.peer_id_bytes().as_slice()),
            copy_bytes(id.as_bytes()),
        );
        (id, msg)
    }

    /// Handles one incoming gossip message, given whether its signature
    /// verified against the sender's advertised public key. A message that
    /// failed verification is silently dropped: the node is unchanged and
    /// nothing is sent. An announce records the sender as a holder of the
    /// identifier. A query is answered directly to the querier exactly when
    /// the store holds the identifier. A query response records the sender
    /// as a holder and asks for a direct fetch, to be verified on arrival.
    pub fn handle_gossip(&mut self, msg: &GossipMessage, sig_ok: bool) -> (r: NodeAction)
        requires
            old(self).wf(),
            msg.wf(),
        ensures
            final(self).wf(),
            final(self).identity@ == old(self).identity@,
            final(self).store@ == old(self).store@,
            final(self).peers@ == old(self).peers@,
            !sig_ok ==> r is Ignore && final(self).announces@ == old(self).announces@,
            sig_ok && msg@.kind is Announce ==> final(self).announces@ == spec_record(
                old(self).announces@,
                msg@.id,
                msg@.sender,
            ) && r is Ignore,
            sig_ok && msg@.kind is Query ==> final(self).announces@ == old(self).announces@ && (
            if spec_find(old(self).store@, msg@.id) is Some {
                r matches NodeAction::Respond { to, id } && to@ == msg@.sender && id@ == msg@.id
            } else {
                r is Ignore
            }),
            sig_ok && msg@.kind is QueryResponse ==> final(self).announces@ == spec_record(
                old(self).announces@,
                msg@.id,
                msg@.sender,
            ) && (r matches NodeAction::Fetch { from, id } && from@ == msg@.sender && id@
                == msg@.id),
    {
        if !sig_ok {
            return NodeAction::Ignore;
        }
        match msg.kind {
            MessageKind::Announce => {
                self.announces.record(msg.id.as_slice(), msg.sender.as_slice());
                NodeAction::Ignore
            },
            MessageKind::Query => {
                let id = ContentId::from_digest(copy_bytes(msg.id.as_slice()));
                if self.store.has(&id) {
                    NodeAction::Respond {
                        to: copy_bytes(msg.sender.as_slice()),
                        id: copy_bytes(msg.id.as_slice()),
                    }
                } else {
                    NodeAction::Ignore
                }
            },
            MessageKind::QueryResponse => {
                self.announces.record(msg.id.as_slice(), msg.sender.as_slice());
                NodeAction::Fetch {
                    from: copy_bytes(msg.sender.as_slice()),
                    id: copy_bytes(msg.id.as_slice()),
                }
            },
        }
    }

    /// Begins resolving a local cache miss. With no active peer the query
    /// resolves to not-found at once — a partition degrades to pure
    /// local-store behaviour and nothing waits on an empty network.
    /// Otherwise the returned query message (still to be signed) is
    /// broadcast and the attempt tracks the deadline.
    pub fn start_query(&self, id: &ContentId, now: u64, expiry: u64, timeout: u64) -> (r: Option<
        (QueryAttempt, GossipMessage),
    >)
        requires
            self.wf(),
            id.wf(),
        ensures
            match r {
                None => spec_active(self.peers@, now, expiry).len() == 0,
                Some((q, m)) => spec_active(self.peers@, now, expiry).len() > 0 && q.id@ == id@
                    && q.started_at == now && q.timeout == timeout && q.wf() && m@
                    == (MessageModel {
                    kind: MessageKind::Query,
                    sender: self.identity@.peer_id,
                    id: id@,
                    sig: Seq::<u8>::empty(),
                }) && m.wf(),
            },
    {
        let active = self.peers.active_peers(now, expiry);
        proof {
            assert(active@.map_values(|p: Vec<u8>| p@).len() == active@.len());
        }
        if active.len() == 0 {
            None
        } else {
            let q = QueryAttempt { id: copy_bytes(id.as_bytes()), started_at: now, timeout };
            let m = GossipMessage::new(
                MessageKind::Query,
                copy_bytes(self.identity.peer_id_bytes().as_slice()),
                copy_bytes(id.as_bytes()),
            );
            Some((q, m))
        }
    }

    /// Advances a pending query by one event, at clock time `now`.
    ///
    /// A response whose payload hashes to the requested identifier is
    /// accepted: the payload is cached locally and returned. A response
    /// whose payload hashes to a different identifier is a
    /// `ContentIntegrityError`: it is discarded — not stored, not returned —
    /// and the query keeps waiting for further responses. A clock tick at or
    /// past the deadline resolves the query to not-found, never leaving it
    /// hanging; before the deadline the query waits on.
    pub fn handle_query_event(&mut self, q: &QueryAttempt, ev: &QueryEvent, now: u64) -> (r:
        QueryOutcome)
        requires
            old(self).wf(),
            q.wf(),
        ensures
            final(self).wf(),
            final(self).identity@ == old(self).identity@,
            final(self).peers@ == old(self).peers@,
            final(self).announces@ == old(self).announces@,
            ev matches QueryEvent::Response { payload, .. } ==> ({
                &&& sha256_of(payload@) == q.id@ ==> final(self).store@ == spec_put(
                    old(self).store@,
                    payload@,
                    now,
                ) && (r matches QueryOutcome::Found(p) && p@ == payload@)
                &&& sha256_of(payload@) != q.id@ ==> final(self).store@ == old(self).store@
                    && r is Waiting
            }),
            ev is Tick ==> final(self).store@ == old(self).store@ && r == (if now >= q.started_at
                + q.timeout {
                QueryOutcome::NotFound
            } else {
                QueryOutcome::Waiting
            }),
            r matches QueryOutcome::Found(p) ==> sha256_of(p@) == q.id@,
    {
        match ev {
            QueryEvent::Response { sender: _, payload } => {
                let computed = identify(payload.as_slice());
                let requested = ContentId::from_digest(copy_bytes(q.id.as_slice()));
                if computed.matches(&requested) {
                    self.store.put(payload.as_slice(), now);
                    QueryOutcome::Found(copy_bytes(payload.as_slice()))
                } else {
                    QueryOutcome::Waiting
                }
            },
            QueryEvent::Tick => {
                if now >= q.started_at && now - q.started_at >= q.timeout {
                    QueryOutcome::NotFound
                } else {
                    QueryOutcome::Waiting
                }
            },
        }
    }
}

} // verus!
