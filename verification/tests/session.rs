use nexlink_lib::identity::NodeIdentity;
use nexlink_lib::session::{append_padding, EncryptionKeyType, PrivacyFilter, SecurityPolicy, SessionManager};

fn random_peer() -> String {
    libp2p::PeerId::random().to_string()
}

#[test]
fn test_session_management() {
    let node_identity = NodeIdentity::generate();
    let policy = SecurityPolicy::default();
    let mut session_manager = SessionManager::new(node_identity, policy);

    let peer_id = random_peer();

    let session = session_manager.create_secure_session(peer_id.clone()).unwrap();
    assert_eq!(session.peer_id, peer_id);
    assert!(session.authenticated);

    assert!(session_manager.is_session_valid(&peer_id));

    let retrieved_session = session_manager.get_session(&peer_id).unwrap();
    assert_eq!(retrieved_session.peer_id, peer_id);

    let removed_session = session_manager.remove_session(&peer_id).unwrap();
    assert_eq!(removed_session.peer_id, peer_id);

    assert!(!session_manager.is_session_valid(&peer_id));
}

#[test]
fn test_privacy_filter() {
    let filter = PrivacyFilter::default();
    let original_data = b"Hello, World!";

    let filtered_data = filter.apply_privacy_filter(original_data);

    assert!(filtered_data.len() >= original_data.len());
    assert_eq!(&filtered_data[..original_data.len()], original_data);
}

#[test]
fn test_security_policy_enforcement() {
    let node_identity = NodeIdentity::generate();
    let strict_policy = SecurityPolicy { enforce_encryption: true, require_authentication: true, ..Default::default() };

    let mut session_manager = SessionManager::new(node_identity, strict_policy);
    let peer_id = random_peer();

    let _session = session_manager.create_secure_session(peer_id.clone()).unwrap();
    assert!(session_manager.is_compliant_with_policy(&peer_id));
}

#[test]
fn sessions_expire_after_max_lifetime() {
    let mut m = SessionManager::new(NodeIdentity::generate(), SecurityPolicy::default());
    let a = "a".to_string();
    let b = "b".to_string();
    let s = m.create_secure_session_at(a.clone(), 1_000, vec![1u8; 32]).unwrap();
    assert_eq!(s.encryption_type, EncryptionKeyType::NoiseXX);
    assert!(s.forward_secret);
    m.create_secure_session_at(b.clone(), 2_000_000, vec![2u8; 32]).unwrap();
    assert!(m.is_session_valid_at(&a, 1_000 + 3_599_999));
    assert!(!m.is_session_valid_at(&a, 1_000 + 3_600_000));
    m.cleanup_expired_sessions_at(1_000 + 3_600_000);
    assert!(m.get_session(&a).is_some());
    m.cleanup_expired_sessions_at(1_000 + 3_600_001);
    assert!(m.get_session(&a).is_none());
    let all = m.get_all_sessions();
    assert_eq!(all.len(), 1);
    assert_eq!(all[0].session_key, vec![2u8; 32]);
}

#[test]
fn unenforced_policy_is_always_compliant() {
    let policy = SecurityPolicy { enforce_encryption: false, ..Default::default() };
    let m = SessionManager::new(NodeIdentity::generate(), policy);
    assert!(m.is_compliant_with_policy(&"anyone".to_string()));
    let strict = SessionManager::new(NodeIdentity::generate(), SecurityPolicy::default());
    assert!(!strict.is_compliant_with_policy(&"anyone".to_string()));
}

#[test]
fn default_policy_values() {
    let p = SecurityPolicy::default();
    assert_eq!(p.allowed_cipher_suites, vec!["AES-256-GCM".to_string(), "ChaCha20-Poly1305".to_string()]);
    assert_eq!(p.max_session_lifetime, 3_600_000);
    assert_eq!(p.heartbeat_interval, 30_000);
    assert_eq!(p.min_tls_version, None);
}

#[test]
fn filter_without_randomization_keeps_data() {
    let filter = PrivacyFilter { randomize_request_size: false, ..PrivacyFilter::default() };
    assert_eq!(filter.apply_privacy_filter(b"abc"), b"abc".to_vec());
    assert_eq!(append_padding(b"ab", &vec![9u8, 8]), vec![b'a', b'b', 9, 8]);
}
