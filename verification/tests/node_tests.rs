//! Tests of discovery, gossip and the replication layer's decisions.

use cas_node::addr::identify;
use cas_node::gossip::{AnnounceTable, GossipMessage, MessageKind};
use cas_node::identity::PeerIdentity;
use cas_node::node::{
    verify_response, NodeAction, NodeError, NodeState, QueryEvent, QueryOutcome,
};
use cas_node::peer::PeerTable;

fn test_identity(seed: u8) -> PeerIdentity {
    PeerIdentity::from_public_key(vec![seed; 32])
}

const EXPIRY: u64 = 30;

#[test]
fn beacon_then_active() {
    let mut peers = PeerTable::new();
    let other = test_identity(1);
    peers.observe_beacon(other.peer_id_bytes().clone(), "10.0.0.2:4000".to_string(), 100);
    let active = peers.active_peers(100, EXPIRY);
    assert_eq!(active.len(), 1);
    assert_eq!(&active[0], other.peer_id_bytes());
}

#[test]
fn stale_record_excluded_from_active_set() {
    let mut peers = PeerTable::new();
    let other = test_identity(1);
    peers.observe_beacon(other.peer_id_bytes().clone(), "10.0.0.2:4000".to_string(), 100);
    // Not refreshed within the expiry window: excluded from the next broadcast.
    let active = peers.active_peers(100 + EXPIRY + 1, EXPIRY);
    assert_eq!(active.len(), 0);
    // A refresh makes it active again.
    peers.observe_beacon(other.peer_id_bytes().clone(), "10.0.0.2:4000".to_string(), 140);
    let active = peers.active_peers(141, EXPIRY);
    assert_eq!(active.len(), 1);
    assert_eq!(peers.record_count(), 1);
}

#[test]
fn sweep_removes_expired_records() {
    let mut peers = PeerTable::new();
    peers.observe_beacon(test_identity(1).peer_id_bytes().clone(), "a".to_string(), 10);
    peers.observe_beacon(test_identity(2).peer_id_bytes().clone(), "b".to_string(), 60);
    assert_eq!(peers.record_count(), 2);
    peers.sweep_expired(70, EXPIRY);
    assert_eq!(peers.record_count(), 1);
    let active = peers.active_peers(70, EXPIRY);
    assert_eq!(active, vec![test_identity(2).peer_id_bytes().clone()]);
}

#[test]
fn wire_format_round_trips() {
    let sender = test_identity(3);
    let id = identify(b"wire payload");
    let mut msg = GossipMessage::new(
        MessageKind::Announce,
        sender.peer_id_bytes().clone(),
        id.as_bytes().to_vec(),
    );
    msg.set_signature(vec![9u8; 64]);
    let bytes = msg.encode();
    let back = GossipMessage::decode(&bytes).expect("an encoded message must decode");
    assert!(matches!(back.kind, MessageKind::Announce));
    assert_eq!(back.sender, msg.sender);
    assert_eq!(back.id, msg.id);
    assert_eq!(back.sig, msg.sig);
}

#[test]
fn decode_rejects_malformed_bytes() {
    assert!(GossipMessage::decode(b"short").is_none());
    let sender = test_identity(3);
    let id = identify(b"x");
    let msg = GossipMessage::new(
        MessageKind::Query,
        sender.peer_id_bytes().clone(),
        id.as_bytes().to_vec(),
    );
    let mut bytes = msg.encode();
    bytes[0] = 77; // unknown tag
    assert!(GossipMessage::decode(&bytes).is_none());
    let mut truncated = msg.encode();
    truncated.pop(); // length no longer matches the signature length field
    assert!(GossipMessage::decode(&truncated).is_none());
}

#[test]
fn signed_part_covers_meaningful_fields() {
    let sender = test_identity(4);
    let id = identify(b"announced");
    let msg = GossipMessage::new(
        MessageKind::Announce,
        sender.peer_id_bytes().clone(),
        id.as_bytes().to_vec(),
    );
    let part = msg.signed_part();
    assert_eq!(part.len(), 1 + 32 + 32);
    assert_eq!(part[0], 1);
    assert_eq!(&part[1..33], sender.peer_id_bytes().as_slice());
    assert_eq!(&part[33..65], id.as_bytes());
}

#[test]
fn announce_table_records_and_deduplicates() {
    let mut table = AnnounceTable::new();
    let id = identify(b"content");
    let peer = test_identity(5);
    table.record(id.as_bytes(), peer.peer_id_bytes().as_slice());
    table.record(id.as_bytes(), peer.peer_id_bytes().as_slice());
    let holders = table.holders(id.as_bytes());
    assert_eq!(holders.len(), 1);
    assert_eq!(&holders[0], peer.peer_id_bytes());
    let unknown = identify(b"unknown");
    assert_eq!(table.holders(unknown.as_bytes()).len(), 0);
}

#[test]
fn unauthenticated_gossip_is_dropped() {
    let mut node = NodeState::new(test_identity(6));
    let other = test_identity(7);
    let id = identify(b"anything");
    let msg = GossipMessage::new(
        MessageKind::Announce,
        other.peer_id_bytes().clone(),
        id.as_bytes().to_vec(),
    );
    let action = node.handle_gossip(&msg, false);
    assert!(matches!(action, NodeAction::Ignore));
    assert_eq!(node.announces.holders(id.as_bytes()).len(), 0);
}

#[test]
fn query_answered_only_when_content_held() {
    let mut node = NodeState::new(test_identity(6));
    let querier = test_identity(7);
    let payload = b"held content";
    let (id, _announce) = node.put_local(payload, 5);
    let query = GossipMessage::new(
        MessageKind::Query,
        querier.peer_id_bytes().clone(),
        id.as_bytes().to_vec(),
    );
    match node.handle_gossip(&query, true) {
        NodeAction::Respond { to, id: answered } => {
            assert_eq!(&to, querier.peer_id_bytes());
            assert_eq!(answered, id.as_bytes().to_vec());
        }
        _ => panic!("a held identifier must be answered"),
    }
    let missing = identify(b"not held");
    let query2 = GossipMessage::new(
        MessageKind::Query,
        querier.peer_id_bytes().clone(),
        missing.as_bytes().to_vec(),
    );
    assert!(matches!(node.handle_gossip(&query2, true), NodeAction::Ignore));
}

#[test]
fn query_with_zero_active_peers_resolves_not_found() {
    let node = NodeState::new(test_identity(6));
    let id = identify(b"wanted");
    // No peer was ever discovered: the query resolves at once, nothing waits.
    assert!(node.start_query(&id, 100, EXPIRY, 5).is_none());
}

#[test]
fn query_times_out_instead_of_hanging() {
    let mut node = NodeState::new(test_identity(6));
    let other = test_identity(7);
    node.peers
        .observe_beacon(other.peer_id_bytes().clone(), "10.0.0.2:4000".to_string(), 100);
    let id = identify(b"wanted");
    let (attempt, query) = node
        .start_query(&id, 100, EXPIRY, 5)
        .expect("with an active peer the query is broadcast");
    assert!(matches!(query.kind, MessageKind::Query));
    assert_eq!(query.id, id.as_bytes().to_vec());
    // Before the deadline the query waits; at the deadline it is not-found.
    assert!(matches!(
        node.handle_query_event(&attempt, &QueryEvent::Tick, 104),
        QueryOutcome::Waiting
    ));
    assert!(matches!(
        node.handle_query_event(&attempt, &QueryEvent::Tick, 105),
        QueryOutcome::NotFound
    ));
}

#[test]
fn corrupt_response_is_rejected_and_not_stored() {
    let mut node = NodeState::new(test_identity(6));
    let other = test_identity(7);
    node.peers
        .observe_beacon(other.peer_id_bytes().clone(), "10.0.0.2:4000".to_string(), 100);
    let wanted = identify(b"the real bytes");
    let (attempt, _query) = node.start_query(&wanted, 100, EXPIRY, 5).unwrap();
    let corrupt = QueryEvent::Response {
        sender: other.peer_id_bytes().clone(),
        payload: b"not the real bytes".to_vec(),
    };
    // The payload hashes to a different identifier: discarded, kept waiting.
    assert!(matches!(
        node.handle_query_event(&attempt, &corrupt, 101),
        QueryOutcome::Waiting
    ));
    assert!(!node.store.has(&wanted));
    assert!(node.store.get(&wanted).is_none());
}

#[test]
fn verify_response_reports_integrity_errors() {
    let wanted = identify(b"expected");
    assert!(verify_response(&wanted, b"expected").is_ok());
    assert_eq!(
        verify_response(&wanted, b"tampered").unwrap_err(),
        NodeError::ContentIntegrity
    );
}

#[test]
fn upload_hello_world_scenario() {
    // Upload b"hello world": the identifier is the SHA-256 hex digest of the
    // bytes, and downloading that identifier returns the payload.
    let mut node = NodeState::new(test_identity(8));
    let (id, announce) = node.put_local(b"hello world", 50);
    assert_eq!(
        id.hex_bytes(),
        b"b94d27b9934d3e08a52e52d7da7dabfac484efe37a5380ee9088f7ace2efcde9".to_vec()
    );
    assert!(matches!(announce.kind, MessageKind::Announce));
    assert_eq!(announce.id, id.as_bytes().to_vec());
    assert_eq!(node.store.get(&id).unwrap(), b"hello world".to_vec());
}

#[test]
fn remote_fetch_scenario() {
    // Node A stores X; node B, which discovered A, misses locally, queries,
    // gets A's response, fetches and verifies X, and serves it.
    let ident_a = test_identity(10);
    let ident_b = test_identity(11);
    let mut node_a = NodeState::new(ident_a);
    let mut node_b = NodeState::new(ident_b);
    let payload_x = b"replicated payload X";

    let (id_x, _announce) = node_a.put_local(payload_x, 100);
    node_b.peers.observe_beacon(
        node_a.identity.peer_id_bytes().clone(),
        "10.0.0.1:4000".to_string(),
        100,
    );

    // B misses locally and broadcasts a query.
    assert!(node_b.store.get(&id_x).is_none());
    let (attempt, query) = node_b.start_query(&id_x, 101, EXPIRY, 5).unwrap();

    // A receives the query over the wire and answers the querier directly.
    let query_wire = query.encode();
    let query_at_a = GossipMessage::decode(&query_wire).unwrap();
    let respond_to = match node_a.handle_gossip(&query_at_a, true) {
        NodeAction::Respond { to, id } => {
            assert_eq!(id, id_x.as_bytes().to_vec());
            to
        }
        _ => panic!("node A holds X and must respond"),
    };
    assert_eq!(&respond_to, node_b.identity.peer_id_bytes());

    // B learns of the responder, fetches the payload from A and verifies it.
    let response = GossipMessage::new(
        MessageKind::QueryResponse,
        node_a.identity.peer_id_bytes().clone(),
        id_x.as_bytes().to_vec(),
    );
    let action = node_b.handle_gossip(&response, true);
    let fetched_from = match action {
        NodeAction::Fetch { from, id } => {
            assert_eq!(id, id_x.as_bytes().to_vec());
            from
        }
        _ => panic!("a query response must trigger a fetch"),
    };
    assert_eq!(&fetched_from, node_a.identity.peer_id_bytes());
    let transfer = node_a.store.get(&id_x).unwrap();
    let outcome = node_b.handle_query_event(
        &attempt,
        &QueryEvent::Response { sender: fetched_from, payload: transfer },
        102,
    );
    match outcome {
        QueryOutcome::Found(bytes) => assert_eq!(bytes, payload_x.to_vec()),
        _ => panic!("the verified payload must resolve the query"),
    }
    // The fetched payload was cached locally before being returned.
    assert_eq!(node_b.store.get(&id_x).unwrap(), payload_x.to_vec());
}
