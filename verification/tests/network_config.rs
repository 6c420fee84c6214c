use nexlink_lib::network_id::{derive_network_id, NetworkConfig};

#[test]
fn network_id_is_hkdf_of_name_and_password() {
    assert_eq!(derive_network_id("home", "secret"), "6662a2c7f65b33d1608c7ff43094c3ba");
    assert_eq!(derive_network_id("office", "secret"), "5ebb01c77c313018b7d6ada7ea3ad230");
    assert_eq!(derive_network_id("home", "secret"), derive_network_id("home", "secret"));
    assert_ne!(derive_network_id("home", "secret"), derive_network_id("home", "secret2"));
}

#[test]
fn private_network_configuration() {
    let c = NetworkConfig::private("home", "secret");
    assert!(c.is_private());
    assert_eq!(c.mode, "private");
    assert_eq!(c.network_name, Some("home".to_string()));
    assert_eq!(c.network_id, Some("6662a2c7f65b33d1608c7ff43094c3ba".to_string()));
    assert_eq!(c.namespace, "nexlink-6662a2c7f65b33d1608c7ff43094c3ba");
    assert_eq!(c.relay_addr, None);
    assert_eq!(c.last_provider, None);
}

#[test]
fn public_network_configuration() {
    let c = NetworkConfig::public();
    assert!(!c.is_private());
    assert_eq!(c.mode, "public");
    assert_eq!(c.namespace, "nexlink-public");
    assert_eq!(c.network_id, None);
    let d = NetworkConfig::default();
    assert_eq!(d.namespace, "nexlink-public");
    let custom = NetworkConfig::private_with_id("n", "abc".to_string());
    assert_eq!(custom.namespace, "nexlink-abc");
}

#[test]
fn network_ids_are_32_lowercase_hex_digits() {
    for (name, password) in [("home", "secret"), ("", ""), ("ünïcode", "pässwörd")] {
        let id = derive_network_id(name, password);
        assert_eq!(id.len(), 32);
        assert!(id.chars().all(|c| c.is_ascii_digit() || ('a'..='f').contains(&c)));
    }
}
