//! The node's identity: an Ed25519 keypair in libp2p's protobuf encoding and
//! the peer id derived from it.
use crate::text::{decimal, decimal_string, owned, push_text};
use libp2p::identity::Keypair;
use vstd::prelude::*;

verus! {

/// The text form of the peer id of the keypair that `bytes` encode in libp2p's
/// protobuf keypair format; none when they do not decode as a keypair.
pub uninterp spec fn keypair_peer_id(bytes: Seq<u8>) -> Option<Seq<char>>;

/// The text of an optional string.
pub open spec fn opt_string_text(s: Option<String>) -> Option<Seq<char>> {
    match s {
        Some(t) => Some(t@),
        None => None,
    }
}

/// `Keypair::from_protobuf_encoding` followed by `public().to_peer_id()` and
/// `to_string()`: the peer id named above, none when decoding fails.
#[verifier::external_body]
fn decode_keypair_peer_id(bytes: &[u8]) -> (r: Option<String>)
    ensures
        opt_string_text(r) == keypair_peer_id(bytes@),
{
    match Keypair::from_protobuf_encoding(bytes) {
        Ok(k) => Some(k.public().to_peer_id().to_string()),
        Err(_) => None,
    }
}

/// `Keypair::generate_ed25519` (a random keypair), encoded with
/// `to_protobuf_encoding` (which cannot fail for Ed25519 keys), with the text of
/// its peer id. Decoding the encoding gives back the same keypair, so the bytes
/// have that peer id. The encoding is a protobuf message holding the key type
/// and the 64 bytes of the keypair (68 bytes), and the peer id is the base58
/// text of a 38-byte identity multihash of the public key (52 ASCII
/// characters), so both fit the limits of a stored identity.
#[verifier::external_body]
fn generate_ed25519_keypair() -> (r: (Vec<u8>, String))
    ensures
        keypair_peer_id(r.0@) == Some(r.1@),
        r.0@.len() <= MAX_KEYPAIR_BYTES,
        peer_id_length_ok(r.1@),
{
    let k = Keypair::generate_ed25519();
    let bytes = k.to_protobuf_encoding().expect("Ed25519 keys always encode");
    (bytes, k.public().to_peer_id().to_string())
}

/// Why stored keypair bytes were refused.
#[derive(Debug, Clone, Copy, PartialEq, Eq, Structural)]
pub enum IdentityError {
    /// More than 1024 bytes; carries the length.
    OversizedKeypair(usize),
    /// The bytes do not decode as a keypair.
    InvalidKeypair,
    /// The peer id text is shorter than 10 or longer than 100 bytes.
    InvalidPeerId,
}

/// The longest keypair encoding accepted.
pub const MAX_KEYPAIR_BYTES: usize = 1024;

impl IdentityError {
    /// The error's message.
    pub open spec fn message_spec(self) -> Seq<char> {
        match self {
            IdentityError::OversizedKeypair(n) => "Invalid multihash size "@ + decimal(n as nat),
            IdentityError::InvalidKeypair => "Failed to parse: invalid multihash"@,
            IdentityError::InvalidPeerId => "Invalid PeerId format"@,
        }
    }

    /// The error's message.
    pub fn message(&self) -> (s: String)
        ensures
            s@ == self.message_spec(),
    {
        match self {
            IdentityError::OversizedKeypair(n) => {
                let mut s = "Invalid multihash size ".to_owned();
                let d = decimal_string(*n as u64);
                push_text(&mut s, d.as_str());
                s
            },
            IdentityError::InvalidKeypair => "Failed to parse: invalid multihash".to_owned(),
            IdentityError::InvalidPeerId => "Invalid PeerId format".to_owned(),
        }
    }
}

/// The identity of this node.
#[derive(Debug)]
pub struct NodeIdentity {
    keypair_bytes: Vec<u8>,
    peer_id: String,
}

/// A peer id text of acceptable length: 10 to 100 bytes of UTF-8.
pub open spec fn peer_id_length_ok(p: Seq<char>) -> bool {
    10 <= vstd::utf8::encode_utf8(p).len() <= 100
}

/// What loading keypair bytes gives, when the bytes decode to the peer id `decoded`.
pub open spec fn load_outcome(bytes: Seq<u8>, decoded: Option<Seq<char>>) -> Result<Seq<char>, IdentityError> {
    if bytes.len() > MAX_KEYPAIR_BYTES {
        Err(IdentityError::OversizedKeypair(bytes.len() as usize))
    } else {
        match decoded {
            None => Err(IdentityError::InvalidKeypair),
            Some(p) => if peer_id_length_ok(p) {
                Ok(p)
            } else {
                Err(IdentityError::InvalidPeerId)
            },
        }
    }
}

/// What to do next while looking for a free backup name.
#[derive(Debug, Clone, Copy, PartialEq, Eq, Structural)]
pub enum BackupStep {
    /// Copy to the name with this attempt number.
    Use(u32),
    /// Check whether the name with this attempt number exists.
    Try(u32),
}

impl NodeIdentity {
    /// The keypair's protobuf encoding.
    pub closed spec fn keypair_spec(&self) -> Seq<u8> {
        self.keypair_bytes@
    }

    /// The peer id's text.
    pub closed spec fn peer_id_spec(&self) -> Seq<char> {
        self.peer_id@
    }

    /// The peer id is the one of the keypair.
    pub open spec fn wf(&self) -> bool {
        keypair_peer_id(self.keypair_spec()) == Some(self.peer_id_spec())
    }

    /// The identity can be stored and loaded back: its peer id is the one of
    /// its keypair, the encoding is at most 1024 bytes and the peer id 10 to
    /// 100 bytes. Every identity the library builds is loadable.
    pub open spec fn loadable(&self) -> bool {
        &&& self.wf()
        &&& self.keypair_spec().len() <= MAX_KEYPAIR_BYTES
        &&& peer_id_length_ok(self.peer_id_spec())
    }

    /// A fresh random Ed25519 identity.
    pub fn generate() -> (id: Self)
        ensures
            id.wf(),
            id.loadable(),
    {
        let (keypair_bytes, peer_id) = generate_ed25519_keypair();
        NodeIdentity { keypair_bytes, peer_id }
    }

    /// Refuses keypair encodings longer than 1024 bytes (a sign of corruption).
    pub fn validate_keypair_bytes(bytes: &[u8]) -> (r: Result<(), IdentityError>)
        ensures
            bytes@.len() > MAX_KEYPAIR_BYTES ==> r == Err::<(), IdentityError>(IdentityError::OversizedKeypair(bytes@.len() as usize)),
            bytes@.len() <= MAX_KEYPAIR_BYTES ==> r is Ok,
    {
        if bytes.len() > MAX_KEYPAIR_BYTES {
            return Err(IdentityError::OversizedKeypair(bytes.len()));
        }
        Ok(())
    }

    /// The identity of keypair bytes already decoded to the peer id `decoded`
    /// (none when they did not decode): refused when oversized, undecodable, or
    /// when the peer id's length is not 10 to 100 bytes.
    pub fn from_decoded(keypair_bytes: Vec<u8>, decoded: Option<String>) -> (r: Result<Self, IdentityError>)
        requires
            keypair_bytes@.len() <= MAX_KEYPAIR_BYTES ==> opt_string_text(decoded) == keypair_peer_id(keypair_bytes@),
        ensures
            r matches Ok(id) ==> load_outcome(keypair_bytes@, opt_string_text(decoded)) == Ok::<Seq<char>, IdentityError>(
                id.peer_id_spec(),
            ) && id.keypair_spec() == keypair_bytes@ && id.loadable(),
            r matches Err(e) ==> load_outcome(keypair_bytes@, opt_string_text(decoded)) == Err::<Seq<char>, IdentityError>(e),
    {
        if keypair_bytes.len() > MAX_KEYPAIR_BYTES {
            return Err(IdentityError::OversizedKeypair(keypair_bytes.len()));
        }
        match decoded {
            None => {
                Err(IdentityError::InvalidKeypair)
            },
            Some(peer_id) => {
                let len = peer_id.as_str().as_bytes().len();
                if len < 10 || len > 100 {
                    return Err(IdentityError::InvalidPeerId);
                }
                Ok(NodeIdentity { keypair_bytes, peer_id })
            },
        }
    }

    /// The identity stored as these keypair bytes (see `from_decoded`).
    pub fn from_keypair_bytes(keypair_bytes: Vec<u8>) -> (r: Result<Self, IdentityError>)
        ensures
            r matches Ok(id) ==> load_outcome(keypair_bytes@, keypair_peer_id(keypair_bytes@)) == Ok::<
                Seq<char>,
                IdentityError,
            >(id.peer_id_spec()) && id.keypair_spec() == keypair_bytes@ && id.wf() && id.loadable(),
            r matches Err(e) ==> load_outcome(keypair_bytes@, keypair_peer_id(keypair_bytes@)) == Err::<
                Seq<char>,
                IdentityError,
            >(e),
    {
        let decoded = if keypair_bytes.len() > MAX_KEYPAIR_BYTES {
            None
        } else {
            decode_keypair_peer_id(keypair_bytes.as_slice())
        };
        NodeIdentity::from_decoded(keypair_bytes, decoded)
    }

    /// The peer id's text.
    pub fn peer_id(&self) -> (p: String)
        ensures
            p@ == self.peer_id_spec(),
    {
        owned(self.peer_id.as_str())
    }

    /// The keypair's protobuf encoding.
    pub fn keypair_bytes(&self) -> (b: &Vec<u8>)
        ensures
            b@ == self.keypair_spec(),
    {
        &self.keypair_bytes
    }

    /// Choosing the backup name of a corrupted identity file: attempt 0 is
    /// "corrupted.json", attempt n "corrupted_<n>.json". While the name of
    /// attempt `attempt` exists, the next attempt is tried, up to attempt 11,
    /// which is used even if it exists.
    pub fn next_backup_step(attempt: u32, exists: bool) -> (s: BackupStep)
        requires
            attempt <= 11,
        ensures
            !exists ==> s == BackupStep::Use(attempt),
            exists && attempt < 10 ==> s == BackupStep::Try((attempt + 1) as u32),
            exists && attempt >= 10 ==> s == BackupStep::Use((attempt + 1) as u32),
    {
        if !exists {
            BackupStep::Use(attempt)
        } else if attempt + 1 > 10 {
            BackupStep::Use(attempt + 1)
        } else {
            BackupStep::Try(attempt + 1)
        }
    }

    /// The file extension of a backup attempt.
    pub fn backup_extension(attempt: u32) -> (e: String)
        ensures
            attempt == 0 ==> e@ == "corrupted.json"@,
            attempt > 0 ==> e@ == "corrupted_"@ + decimal(attempt as nat) + ".json"@,
    {
        if attempt == 0 {
            "corrupted.json".to_owned()
        } else {
            let mut e = "corrupted_".to_owned();
            let d = decimal_string(attempt as u64);
            push_text(&mut e, d.as_str());
            push_text(&mut e, ".json");
            e
        }
    }
}

/// An identity rebuilt from the stored bytes of an identity has the same peer
/// id (stored identities load back as they were). Every identity the library
/// builds (`generate`, `from_keypair_bytes`, `from_decoded`) is loadable.
pub proof fn lemma_load_after_generate(id: NodeIdentity)
    requires
        id.loadable(),
    ensures
        load_outcome(id.keypair_spec(), keypair_peer_id(id.keypair_spec())) == Ok::<Seq<char>, IdentityError>(
            id.peer_id_spec(),
        ),
{
}

} // verus!
