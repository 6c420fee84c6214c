use nexlink_lib::crypto::{CertificateInfo, CryptoError, CryptoManager, KeyExchangeProtocol};

fn random_peer() -> String {
    libp2p::PeerId::random().to_string()
}

fn local_key() -> Vec<u8> {
    vec![7u8; 32]
}

fn now_ms() -> u64 {
    std::time::SystemTime::now().duration_since(std::time::UNIX_EPOCH).unwrap().as_millis() as u64
}

#[test]
fn test_crypto_manager_basic_operations() {
    let mut crypto_manager = CryptoManager::new(local_key());

    let peer_id = random_peer();
    let public_key = vec![1, 2, 3, 4, 5];

    crypto_manager.register_peer_key(peer_id.clone(), public_key.clone()).unwrap();
    assert_eq!(crypto_manager.get_peer_key(&peer_id), Some(public_key));

    let session = crypto_manager.initiate_key_exchange(peer_id.clone(), KeyExchangeProtocol::NoiseXX).unwrap();
    assert_eq!(session.peer_id, peer_id);

    let plaintext = b"Hello, secure world!";
    let encrypted = crypto_manager.encrypt(&peer_id, plaintext).unwrap();
    let decrypted = crypto_manager.decrypt(&peer_id, &encrypted).unwrap();

    assert_eq!(decrypted, plaintext.to_vec());
}

#[test]
fn test_auth_credentials() {
    let mut crypto_manager = CryptoManager::new(local_key());

    let peer_id = random_peer();

    let credential = crypto_manager.create_auth_credential(peer_id.clone()).unwrap();
    assert_eq!(credential.peer_id, peer_id);

    let is_valid = crypto_manager.verify_auth_credential(&credential).unwrap();
    assert!(is_valid);
}

#[test]
fn test_certificates() {
    let mut crypto_manager = CryptoManager::new(local_key());

    let peer_id = random_peer();
    let issuer_id = random_peer();
    let now = now_ms();

    let cert = CertificateInfo {
        peer_id: peer_id.clone(),
        public_key: vec![1, 2, 3, 4],
        issuer: issuer_id,
        validity_period: (now, now + 3_600_000),
        signature: vec![5, 6, 7, 8],
    };

    crypto_manager.store_certificate(cert).unwrap();

    let is_valid = crypto_manager.verify_certificate(&peer_id).unwrap();
    assert!(is_valid);
}

#[test]
fn encryption_needs_a_session() {
    let mut crypto_manager = CryptoManager::new(local_key());
    let peer = "nobody".to_string();
    assert_eq!(crypto_manager.encrypt(&peer, b"x").unwrap_err(), CryptoError::NoActiveSession);
    assert_eq!(crypto_manager.decrypt(&peer, b"x").unwrap_err(), CryptoError::NoActiveSession);
    assert_eq!(crypto_manager.get_peer_key(&peer), None);
}

#[test]
fn ciphertext_differs_from_plaintext_and_round_trips_at_fixed_times() {
    let mut crypto_manager = CryptoManager::new(local_key());
    let peer = "p".to_string();
    crypto_manager.initiate_key_exchange_at(peer.clone(), KeyExchangeProtocol::X25519, 1_000).unwrap();
    let plain = b"attack at dawn".to_vec();
    let c = crypto_manager.encrypt_at(&peer, &plain, 2_000).unwrap();
    assert_eq!(c.len(), plain.len());
    assert_ne!(c, plain);
    let p = crypto_manager.decrypt_at(&peer, &c, 3_000).unwrap();
    assert_eq!(p, plain);
    assert_eq!(crypto_manager.active_session_count(), 1);
    crypto_manager.cleanup_expired_sessions_at(1_000 + 86_400_001 + 2_000);
    assert_eq!(crypto_manager.active_session_count(), 0);
}

#[test]
fn certificate_validity_bounds_are_inclusive() {
    let mut crypto_manager = CryptoManager::new(local_key());
    let peer = "cert-peer".to_string();
    let cert = CertificateInfo {
        peer_id: peer.clone(),
        public_key: vec![],
        issuer: "issuer".to_string(),
        validity_period: (100, 200),
        signature: vec![],
    };
    crypto_manager.store_certificate(cert).unwrap();
    assert_eq!(crypto_manager.verify_certificate_at(&peer, 99), Ok(false));
    assert_eq!(crypto_manager.verify_certificate_at(&peer, 100), Ok(true));
    assert_eq!(crypto_manager.verify_certificate_at(&peer, 200), Ok(true));
    assert_eq!(crypto_manager.verify_certificate_at(&peer, 201), Ok(false));
    assert_eq!(crypto_manager.verify_certificate_at(&"other".to_string(), 150), Ok(false));
}

#[test]
fn credential_expires_after_an_hour() {
    let mut crypto_manager = CryptoManager::new(local_key());
    let c = crypto_manager.create_auth_credential_at("peer".to_string(), 10_000, vec![0u8; 64]).unwrap();
    assert_eq!(c.expires_at, 10_000 + 3_600_000);
    assert_eq!(crypto_manager.verify_auth_credential_at(&c, 3_610_000), Ok(true));
    assert_eq!(crypto_manager.verify_auth_credential_at(&c, 3_610_001), Ok(false));
}
