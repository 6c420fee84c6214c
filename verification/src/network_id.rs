//! Network identity: public networks share one rendezvous namespace; a private
//! network's namespace is derived from its name and password.
use crate::kdf::{hex_encode, hex_lower, hkdf_sha256, hkdf_sha256_expand, is_lower_hex_digit, lemma_hex_lower_shape};
use crate::text::{owned, push_char, push_text, text_eq};
use vstd::prelude::*;

verus! {

/// The HKDF salt: the UTF-8 bytes of "nexlink-network-v1".
pub open spec fn network_salt() -> Seq<u8> {
    "nexlink-network-v1"@.map_values(|c: char| c as u8)
}

/// The HKDF info: the UTF-8 bytes of "rendezvous-namespace".
pub open spec fn network_info() -> Seq<u8> {
    "rendezvous-namespace"@.map_values(|c: char| c as u8)
}

/// The key material: the UTF-8 bytes of "<name>:<password>".
pub open spec fn network_ikm(name: Seq<char>, password: Seq<char>) -> Seq<u8> {
    vstd::utf8::encode_utf8(name + seq![':'] + password)
}

/// The network id: 16 bytes of HKDF-SHA256 output, as 32 lowercase hex digits.
pub open spec fn network_id_text(name: Seq<char>, password: Seq<char>) -> Seq<char> {
    hex_lower(hkdf_sha256(Some(network_salt()), network_ikm(name, password), network_info(), 16))
}

/// "nexlink-" followed by the network id.
pub open spec fn private_namespace(network_id: Seq<char>) -> Seq<char> {
    "nexlink-"@ + network_id
}

fn ascii_bytes(s: &str) -> (b: Vec<u8>)
    requires
        forall|i: int| 0 <= i < s@.len() ==> (s@[i] as u32) < 128,
    ensures
        b@ == s@.map_values(|c: char| c as u8),
{
    let n = s.unicode_len();
    let mut b: Vec<u8> = Vec::new();
    let mut i: usize = 0;
    while i < n
        invariant
            n == s@.len(),
            i <= n,
            forall|k: int| 0 <= k < s@.len() ==> (s@[k] as u32) < 128,
            b@ == s@.subrange(0, i as int).map_values(|c: char| c as u8),
        decreases n - i,
    {
        let c = s.get_char(i);
        let v = c as u32;
        b.push(v as u8);
        i = i + 1;
        proof {
            assert(b@ =~= s@.subrange(0, i as int).map_values(|c: char| c as u8));
        }
    }
    proof {
        assert(s@.subrange(0, n as int) =~= s@);
    }
    b
}

/// Derives the network id of a private network from its name and password:
/// HKDF-SHA256 with salt "nexlink-network-v1", key material "<name>:<password>"
/// and info "rendezvous-namespace", 16 bytes, hex encoded.
pub fn derive_network_id(name: &str, password: &str) -> (id: String)
    ensures
        id@ == network_id_text(name@, password@),
        id@.len() == 32,
        forall|i: int| 0 <= i < 32 ==> is_lower_hex_digit(#[trigger] id@[i]),
{
    let mut ikm = owned(name);
    push_char(&mut ikm, ':');
    push_text(&mut ikm, password);
    let salt_text = "nexlink-network-v1";
    let info_text = "rendezvous-namespace";
    proof {
        reveal_strlit("nexlink-network-v1");
        reveal_strlit("rendezvous-namespace");
    }
    let salt = ascii_bytes(salt_text);
    let info = ascii_bytes(info_text);
    let okm = hkdf_sha256_expand(Some(salt.as_slice()), ikm.as_str().as_bytes(), info.as_slice(), 16);
    proof {
        assert(ikm@ =~= name@ + seq![':'] + password@);
        lemma_hex_lower_shape(okm@);
    }
    hex_encode(okm.as_slice())
}

/// The persistent network configuration.
#[derive(Debug, Clone)]
pub struct NetworkConfig {
    /// "public" or "private".
    pub mode: String,
    /// The network's name (private networks only).
    pub network_name: Option<String>,
    /// The derived network id (private networks only).
    pub network_id: Option<String>,
    /// The rendezvous namespace.
    pub namespace: String,
    /// The relay server's multiaddr.
    pub relay_addr: Option<String>,
    /// The provider last selected.
    pub last_provider: Option<String>,
}

/// The text of an optional string.
pub open spec fn opt_text(s: Option<String>) -> Option<Seq<char>> {
    match s {
        Some(t) => Some(t@),
        None => None,
    }
}

impl NetworkConfig {
    /// The public network: mode "public", namespace "nexlink-public", nothing else set.
    pub open spec fn is_public_default(&self) -> bool {
        &&& self.mode@ == "public"@
        &&& self.network_name is None
        &&& self.network_id is None
        &&& self.namespace@ == "nexlink-public"@
        &&& self.relay_addr is None
        &&& self.last_provider is None
    }

    /// The public network configuration.
    pub fn public() -> (c: Self)
        ensures
            c.is_public_default(),
    {
        NetworkConfig {
            mode: "public".to_owned(),
            network_name: None,
            network_id: None,
            namespace: "nexlink-public".to_owned(),
            relay_addr: None,
            last_provider: None,
        }
    }

    /// A private network with an already derived id: mode "private", the name and
    /// id recorded, namespace "nexlink-<id>".
    pub fn private_with_id(name: &str, network_id: String) -> (c: Self)
        ensures
            c.mode@ == "private"@,
            opt_text(c.network_name) == Some(name@),
            opt_text(c.network_id) == Some(network_id@),
            c.namespace@ == private_namespace(network_id@),
            c.relay_addr is None,
            c.last_provider is None,
    {
        let mut namespace = "nexlink-".to_owned();
        push_text(&mut namespace, network_id.as_str());
        NetworkConfig {
            mode: "private".to_owned(),
            network_name: Some(owned(name)),
            network_id: Some(network_id),
            namespace,
            relay_addr: None,
            last_provider: None,
        }
    }

    /// The private network of the given name and password.
    pub fn private(name: &str, password: &str) -> (c: Self)
        ensures
            c.mode@ == "private"@,
            opt_text(c.network_name) == Some(name@),
            opt_text(c.network_id) == Some(network_id_text(name@, password@)),
            c.network_id matches Some(id) && id@.len() == 32 && forall|i: int| 0 <= i < 32 ==> is_lower_hex_digit(#[trigger] id@[i]),
            c.namespace@ == private_namespace(network_id_text(name@, password@)),
            c.relay_addr is None,
            c.last_provider is None,
    {
        let network_id = derive_network_id(name, password);
        NetworkConfig::private_with_id(name, network_id)
    }

    /// Whether the mode is "private".
    pub fn is_private(&self) -> (b: bool)
        ensures
            b == (self.mode@ == "private"@),
    {
        text_eq(self.mode.as_str(), "private")
    }
}

impl Default for NetworkConfig {
    /// The public network.
    fn default() -> (c: Self)
        ensures
            c.is_public_default(),
    {
        NetworkConfig::public()
    }
}

/// The public configuration is not private.
pub proof fn lemma_public_is_not_private(c: NetworkConfig)
    requires
        c.is_public_default(),
    ensures
        c.mode@ != "private"@,
{
    reveal_strlit("private");
    reveal_strlit("public");
    assert("private"@[1] != "public"@[1]);
}

} // verus!
