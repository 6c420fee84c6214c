use nexlink_lib::identity::{BackupStep, IdentityError, NodeIdentity};

#[test]
fn test_generate_new_identity() {
    let id = NodeIdentity::generate();
    assert!(!id.peer_id().is_empty());
}

#[test]
fn test_validate_keypair_bytes_detection() {
    let oversized_bytes = vec![0u8; 2048];
    assert!(NodeIdentity::validate_keypair_bytes(&oversized_bytes).is_err());

    let valid_bytes = vec![0x0a, 0x20];
    assert!(NodeIdentity::validate_keypair_bytes(&valid_bytes).is_ok());
}

#[test]
fn keypair_bytes_load_back_to_same_peer_id() {
    let id = NodeIdentity::generate();
    let bytes = id.keypair_bytes().clone();
    let loaded = NodeIdentity::from_keypair_bytes(bytes).unwrap();
    assert_eq!(loaded.peer_id(), id.peer_id());
}

#[test]
fn oversized_and_corrupt_keypairs_are_refused() {
    let err = NodeIdentity::from_keypair_bytes(vec![0u8; 1025]).unwrap_err();
    assert_eq!(err, IdentityError::OversizedKeypair(1025));
    assert_eq!(err.message(), "Invalid multihash size 1025");
    let err = NodeIdentity::from_keypair_bytes(vec![255, 255, 255, 255]).unwrap_err();
    assert_eq!(err, IdentityError::InvalidKeypair);
    assert_eq!(err.message(), "Failed to parse: invalid multihash");
    let ok_len = NodeIdentity::from_keypair_bytes(vec![0u8; 1024]);
    assert!(!matches!(ok_len, Err(IdentityError::OversizedKeypair(_))));
}

#[test]
fn decoded_keypairs_build_identities() {
    let keypair = libp2p::identity::Keypair::generate_ed25519();
    let bytes = keypair.to_protobuf_encoding().unwrap();
    let peer_id = keypair.public().to_peer_id().to_string();
    assert_eq!(bytes.len(), 68);
    assert_eq!(peer_id.len(), 52);
    let id = NodeIdentity::from_decoded(bytes.clone(), Some(peer_id.clone())).unwrap();
    assert_eq!(id.peer_id(), peer_id);
    assert_eq!(id.keypair_bytes(), &bytes);
    assert_eq!(NodeIdentity::from_decoded(vec![255, 255], None).unwrap_err(), IdentityError::InvalidKeypair);
    let short = IdentityError::InvalidPeerId;
    assert_eq!(short.message(), "Invalid PeerId format");
}

#[test]
fn backup_names_are_tried_in_turn() {
    assert_eq!(NodeIdentity::next_backup_step(0, false), BackupStep::Use(0));
    assert_eq!(NodeIdentity::next_backup_step(0, true), BackupStep::Try(1));
    assert_eq!(NodeIdentity::next_backup_step(9, true), BackupStep::Try(10));
    assert_eq!(NodeIdentity::next_backup_step(10, true), BackupStep::Use(11));
    assert_eq!(NodeIdentity::backup_extension(0), "corrupted.json");
    assert_eq!(NodeIdentity::backup_extension(3), "corrupted_3.json");
}
