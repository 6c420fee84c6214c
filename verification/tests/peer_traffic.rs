use nexlink_lib::peer_traffic::{PeerTrafficError, PeerTrafficManager, PeerTrafficRule};

fn random_peer() -> String {
    libp2p::PeerId::random().to_string()
}

#[test]
fn tracks_traffic_per_peer() {
    let mut manager = PeerTrafficManager::new();
    let peer = random_peer();
    manager.open_connection(&peer).unwrap();
    manager.record_received(&peer, 10).unwrap();
    manager.record_sent(&peer, 20).unwrap();
    manager.close_connection(&peer);

    let snap = manager.snapshot(&peer);
    assert_eq!(snap.bytes_received, 10);
    assert_eq!(snap.bytes_sent, 20);
    assert_eq!(snap.active_connections, 0);
    assert_eq!(snap.total_connections, 1);
}

#[test]
fn enforces_quota() {
    let mut manager = PeerTrafficManager::new();
    let peer = random_peer();
    manager.set_rule(&peer, PeerTrafficRule { byte_quota: Some(16) });
    manager.open_connection(&peer).unwrap();
    manager.record_received(&peer, 8).unwrap();
    manager.record_sent(&peer, 8).unwrap_err();
}

#[test]
fn exceeded_quota_refuses_new_connections_and_traffic() {
    let mut manager = PeerTrafficManager::new();
    let peer = "peer-a".to_string();
    manager.set_rule_at(&peer, PeerTrafficRule { byte_quota: Some(10) }, 100);
    assert!(manager.record_sent_at(&peer, 10, 101).is_err());
    match manager.open_connection_at(&peer, 102) {
        Err(PeerTrafficError::QuotaExceeded { peer_id }) => assert_eq!(peer_id, "peer-a"),
        Ok(()) => panic!("connection must be refused"),
    }
    assert!(manager.record_received_at(&peer, 1, 103).is_err());
    let snap = manager.snapshot_at(&peer, 104);
    assert_eq!(snap.bytes_sent, 10);
    assert_eq!(snap.bytes_received, 1);
    assert_eq!(snap.quota_bytes, Some(10));
    assert!(snap.quota_exceeded);
    assert_eq!(snap.total_connections, 0);
    assert_eq!(snap.last_seen_unix_secs, 103);
}

#[test]
fn quota_of_zero_means_no_quota() {
    let mut manager = PeerTrafficManager::new();
    let peer = "peer-b".to_string();
    manager.set_rule_at(&peer, PeerTrafficRule { byte_quota: Some(0) }, 5);
    manager.record_sent_at(&peer, 1_000_000, 6).unwrap();
    let snap = manager.snapshot_at(&peer, 7);
    assert_eq!(snap.quota_bytes, None);
    assert!(!snap.quota_exceeded);
    manager.set_rule_at(&peer, PeerTrafficRule::default(), 8);
    assert!(manager.can_open_connection_at(&peer, 9).is_ok());
}

#[test]
fn closing_without_open_connection_wraps_count() {
    let mut manager = PeerTrafficManager::new();
    let peer = "peer-c".to_string();
    manager.close_connection_at(&peer, 1);
    let snap = manager.snapshot_at(&peer, 2);
    assert_eq!(snap.active_connections, u32::MAX);
    assert_eq!(snap.last_seen_unix_secs, 1);
}

#[test]
fn snapshot_all_orders_by_total_descending() {
    let mut manager = PeerTrafficManager::new();
    let a = "a".to_string();
    let b = "b".to_string();
    let c = "c".to_string();
    manager.record_sent_at(&a, 5, 1).unwrap();
    manager.record_sent_at(&b, 50, 1).unwrap();
    manager.record_received_at(&c, 20, 1).unwrap();
    manager.record_sent_at(&c, 1, 1).unwrap();
    let all = manager.snapshot_all();
    let ids: Vec<&str> = all.iter().map(|s| s.peer_id.as_str()).collect();
    assert_eq!(ids, vec!["b", "c", "a"]);
    assert_eq!(all[1].bytes_received, 20);
    assert_eq!(all[1].bytes_sent, 1);
}
