use deltachat_channels::payload::{add_random_salt, add_salt, strip_salt};
use deltachat_channels::peers::{
    add_peer_for_topic, create_random_topic, get_gossip_peers, node_addr_from_parts,
    node_addr_from_row, parse_relay_url, topic_from_bytes, MsgId, NodeId, PeerRow, PeerRowError,
    TopicId,
};
use deltachat_channels::secret_key::{get_or_generate_iroh_keypair, load_secret_key, new_keypair};
use deltachat_channels::swarm::{
    accepted_alpn, handle_connection, handle_event, ConnectionUse, SwarmAction, SwarmEvent,
};

fn node(n: u8) -> [u8; 32] {
    *iroh_base::key::SecretKey::from_bytes(&[n; 32]).public().as_bytes()
}

fn row(key: &[u8], relay: Option<&str>) -> PeerRow {
    PeerRow { public_key: key.to_vec(), relay_server: relay.map(|s| s.to_string()) }
}

#[test]
fn data_is_received_as_sent() {
    let payload = add_salt(b"alice -> bob".to_vec(), &[1, 2, 3, 4, 5, 6, 7, 8]);
    assert_eq!(payload, b"alice -> bob\x01\x02\x03\x04\x05\x06\x07\x08");
    assert_eq!(strip_salt(&payload), b"alice -> bob");
    assert_eq!(strip_salt(&add_random_salt(vec![])), b"");
}

#[test]
fn random_salt_keeps_messages_apart() {
    let a = add_random_salt(b"x".to_vec());
    let b = add_random_salt(b"x".to_vec());
    assert_eq!(a.len(), 9);
    assert_eq!(strip_salt(&a), strip_salt(&b));
    assert_ne!(a, b);
}

#[test]
fn random_topics_differ() {
    assert_ne!(create_random_topic().bytes, create_random_topic().bytes);
}

#[test]
fn topic_of_bytes() {
    let bytes: Vec<u8> = (0..32).collect();
    assert_eq!(topic_from_bytes(&bytes).bytes.to_vec(), bytes);
    assert_eq!(TopicId::from_bytes([7; 32]).bytes, [7; 32]);
}

#[test]
fn relay_urls() {
    assert_eq!(parse_relay_url("https://example.com"), Ok("https://example.com./".to_string()));
    assert_eq!(
        parse_relay_url("https://iroh.testrun.org:4443"),
        Ok("https://iroh.testrun.org.:4443/".to_string())
    );
    assert_eq!(parse_relay_url("no url"), Err(PeerRowError::BadRelayUrl));
}

#[test]
fn stored_peer_is_read_back() {
    let record = add_peer_for_topic(
        MsgId(7),
        &TopicId { bytes: [3; 32] },
        &NodeId { bytes: node(1) },
        Some("https://example.com"),
    );
    assert_eq!(record.msg_id.0, 7);
    assert_eq!(record.topic, vec![3; 32]);
    let addr = node_addr_from_row(&record.row).unwrap();
    assert_eq!(addr.node_id.bytes, node(1));
    assert_eq!(addr.relay_url, Some("https://example.com./".to_string()));
}

#[test]
fn peers_are_read_in_order() {
    let rows = vec![row(&node(1), None), row(&node(2), Some("http://r.org"))];
    let peers = get_gossip_peers(&rows).unwrap();
    assert_eq!(peers.len(), 2);
    assert_eq!(peers[0].node_id.bytes, node(1));
    assert_eq!(peers[0].relay_url, None);
    assert_eq!(peers[1].node_id.bytes, node(2));
    assert_eq!(get_gossip_peers(&vec![]).unwrap().len(), 0);
}

#[test]
fn peers_that_cannot_be_read() {
    let bad = |r: PeerRow| get_gossip_peers(&vec![row(&node(1), None), r]).err();
    assert_eq!(bad(row(&[1, 2], None)), Some(PeerRowError::BadKeyLength));
    assert_eq!(bad(row(&node(1), Some("?"))), Some(PeerRowError::BadRelayUrl));
    assert_eq!(bad(row(&[1, 2], Some("?"))), Some(PeerRowError::BadRelayUrl));
    let rows = vec![row(&[1], None), row(&node(1), Some("?"))];
    assert_eq!(get_gossip_peers(&rows).err(), Some(PeerRowError::BadKeyLength));
}

#[test]
fn keys_are_points_on_the_curve() {
    let mut invalid = 0;
    for n in 0..64u8 {
        let mut bytes = [0u8; 32];
        bytes[0] = n;
        let expected = iroh_base::key::PublicKey::from_bytes(&bytes).is_ok();
        match node_addr_from_row(&row(&bytes, None)) {
            Ok(addr) => {
                assert!(expected);
                assert_eq!(addr.node_id.bytes, bytes);
            }
            Err(e) => {
                assert!(!expected);
                assert_eq!(e, PeerRowError::BadKey);
                invalid += 1;
            }
        }
    }
    assert!(invalid > 0);
}

#[test]
fn error_of_the_relay_comes_first() {
    let r = node_addr_from_parts(Err(PeerRowError::BadRelayUrl), Err(PeerRowError::BadKey));
    assert_eq!(r.err(), Some(PeerRowError::BadRelayUrl));
    let r = node_addr_from_parts(Ok(None), Err(PeerRowError::BadKey));
    assert_eq!(r.err(), Some(PeerRowError::BadKey));
}

#[test]
fn generated_key_is_kept() {
    let first = get_or_generate_iroh_keypair(None);
    let text = first.persist.unwrap();
    let second = get_or_generate_iroh_keypair(Some(&text));
    assert_eq!(second.secret_key, first.secret_key);
    assert!(second.persist.is_none());
    assert_ne!(get_or_generate_iroh_keypair(None).secret_key, first.secret_key);
}

#[test]
fn key_texts() {
    let text = new_keypair([0; 32]).persist.unwrap();
    assert_eq!(text, "a".repeat(52));
    assert_eq!(load_secret_key(Some(&text)), Some([0; 32]));
    assert_eq!(load_secret_key(Some(&"07".repeat(32))), Some([7; 32]));
    assert_eq!(load_secret_key(Some("no key")), None);
    assert_eq!(load_secret_key(None), None);
    assert!(get_or_generate_iroh_keypair(Some("no key")).persist.is_some());
}

#[test]
fn neighbor_is_stored_without_relay() {
    let event = SwarmEvent::NeighborUp { node: NodeId { bytes: node(4) } };
    match handle_event(MsgId(2), &TopicId { bytes: [9; 32] }, event) {
        SwarmAction::StorePeer { record } => {
            assert_eq!(record.msg_id.0, 2);
            assert_eq!(record.topic, vec![9; 32]);
            assert_eq!(record.row.public_key, node(4).to_vec());
            assert_eq!(record.row.relay_server, None);
        }
        _ => panic!("not stored"),
    }
    let event = SwarmEvent::NeighborDown { node: NodeId { bytes: node(4) } };
    let action = handle_event(MsgId(2), &TopicId { bytes: [9; 32] }, event);
    assert!(matches!(action, SwarmAction::Nothing));
}

#[test]
fn received_data_is_passed_on() {
    let event = SwarmEvent::Received { content: add_random_salt(b"bob -> alice 2".to_vec()) };
    match handle_event(MsgId(2), &TopicId { bytes: [9; 32] }, event) {
        SwarmAction::EmitRealtimeData { msg_id, data } => {
            assert_eq!(msg_id.0, 2);
            assert_eq!(data, b"bob -> alice 2");
        }
        _ => panic!("not passed on"),
    }
}

#[test]
fn only_gossip_connections_are_used() {
    assert_eq!(accepted_alpn(), b"/iroh-gossip/0");
    assert_eq!(handle_connection(b"/iroh-gossip/0"), ConnectionUse::Gossip);
    assert_eq!(handle_connection(b"/iroh-gossip/1"), ConnectionUse::Ignore);
    assert_eq!(handle_connection(b"/iroh-gossip/"), ConnectionUse::Ignore);
    assert_eq!(handle_connection(b""), ConnectionUse::Ignore);
}
