//! Session keys, a counter-based stream cipher, credentials and certificates.
//!
//! Peers are identified by the text form of their peer id. Times are
//! milliseconds since the Unix epoch.
use crate::clock::now_millis;
use crate::kdf::{hkdf_sha256, hkdf_sha256_expand};
use crate::random::random_bytes;
use crate::table::KeyedTable;
use vstd::prelude::*;

verus! {

/// Validity of a credential after it is issued: one hour.
pub const CREDENTIAL_LIFETIME_MS: u64 = 3_600_000;

/// Maximum age of an encryption session: 24 hours.
pub const MAX_SESSION_AGE_MS: u64 = 86_400_000;

/// Length of a session key in bytes.
pub const SESSION_KEY_LEN: usize = 32;

/// Length of the signature placed in a fresh credential.
pub const SIGNATURE_LEN: usize = 64;

/// Key exchange protocol of a session.
#[derive(Debug, Clone, Copy, PartialEq, Eq, Structural)]
pub enum KeyExchangeProtocol {
    NoiseIK,
    NoiseXX,
    X25519,
}

/// Errors of the crypto manager.
#[derive(Debug, Clone, Copy, PartialEq, Eq, Structural)]
pub enum CryptoError {
    /// No session has been established with the peer.
    NoActiveSession,
}

/// Authentication credential issued to a peer.
#[derive(Debug, Clone)]
pub struct AuthCredential {
    pub peer_id: String,
    pub public_key: Vec<u8>,
    pub signature: Vec<u8>,
    pub issued_at: u64,
    pub expires_at: u64,
}

/// Certificate of a peer, valid from `validity_period.0` to `validity_period.1`.
#[derive(Debug)]
pub struct CertificateInfo {
    pub peer_id: String,
    pub public_key: Vec<u8>,
    pub issuer: String,
    pub validity_period: (u64, u64),
    pub signature: Vec<u8>,
}

/// An established encryption session.
#[derive(Debug, Clone)]
pub struct EncryptionSession {
    pub peer_id: String,
    pub protocol: KeyExchangeProtocol,
    pub session_key: Vec<u8>,
    /// Counter that perturbs the key stream.
    pub iv_counter: u64,
    pub established_at: u64,
    pub last_used: u64,
}

/// Keys, sessions, credentials and certificates of the local node.
pub struct CryptoManager {
    local_private_key: Vec<u8>,
    peer_public_keys: KeyedTable<Vec<u8>>,
    active_sessions: KeyedTable<EncryptionSession>,
    credentials: KeyedTable<AuthCredential>,
    certificates: KeyedTable<CertificateInfo>,
}

/// Byte `i` of the key stream: the key byte at `i` mod the key length, xored with
/// byte `i mod 8` (little-endian) of the counter.
pub open spec fn keystream_byte(key: Seq<u8>, iv: u64, i: int) -> u8 {
    key[i % (key.len() as int)] ^ ((iv >> (((i % 8) * 8) as u64)) as u8)
}

/// The data xored with the key stream; encryption and decryption are both this.
pub open spec fn xor_stream(key: Seq<u8>, data: Seq<u8>, iv: u64) -> Seq<u8> {
    Seq::new(data.len(), |i: int| data[i] ^ keystream_byte(key, iv, i))
}

/// The info string used to derive session keys.
pub open spec fn session_key_info() -> Seq<u8> {
    seq![110u8, 101, 120, 108, 105, 110, 107, 45, 115, 101, 115, 115, 105, 111, 110, 45, 107, 101, 121]
}

/// The counter that decryption uses, one below the stored one (never below 0).
pub open spec fn decrypt_counter(iv: u64) -> u64 {
    if iv > 0 { (iv - 1) as u64 } else { 0 }
}

/// A session established at `established_at` is expired at `now` when more than
/// 24 hours have passed; a clock reading earlier than the establishment counts as
/// exactly 24 hours, which is not expired.
pub open spec fn session_expired(established_at: u64, now: u64) -> bool {
    now >= established_at && now - established_at > MAX_SESSION_AGE_MS
}

/// The sessions left by removing, at `now`, those that are expired: the
/// others stay unchanged.
pub open spec fn sessions_cleaned(
    before: Map<Seq<char>, EncryptionSession>,
    after: Map<Seq<char>, EncryptionSession>,
    now: u64,
) -> bool {
    &&& forall|k: Seq<char>| #[trigger] after.contains_key(k) <==>
        before.contains_key(k) && !session_expired(before[k].established_at, now)
    &&& forall|k: Seq<char>| #[trigger] after.contains_key(k) ==> after[k] == before[k]
}

/// Applying the key stream twice gives the data back.
pub proof fn lemma_xor_stream_involution(key: Seq<u8>, data: Seq<u8>, iv: u64)
    ensures
        xor_stream(key, xor_stream(key, data, iv), iv) == data,
{
    let once = xor_stream(key, data, iv);
    let twice = xor_stream(key, once, iv);
    assert forall|i: int| 0 <= i < data.len() implies twice[i] == data[i] by {
        let a = data[i];
        let k = keystream_byte(key, iv, i);
        assert((a ^ k) ^ k == a) by (bit_vector);
    }
    assert(twice =~= data);
}

fn xor_with_key_stream(key: &[u8], data: &[u8], iv_counter: u64) -> (out: Vec<u8>)
    requires
        key@.len() > 0 || data@.len() == 0,
    ensures
        out@ == xor_stream(key@, data@, iv_counter),
{
    let mut out: Vec<u8> = Vec::with_capacity(data.len());
    let n = data.len();
    let mut i: usize = 0;
    while i < n
        invariant
            n == data@.len(),
            i <= n,
            key@.len() > 0 || n == 0,
            out@.len() == i,
            forall|j: int| 0 <= j < i ==> out@[j] == data@[j] ^ keystream_byte(key@, iv_counter, j),
        decreases n - i,
    {
        let key_byte = key[i % key.len()];
        let shift: u64 = ((i % 8) * 8) as u64;
        let iv_shift = #[verifier::truncate] ((iv_counter >> shift) as u8);
        let d = data[i];
        proof {
            assert(d ^ key_byte ^ iv_shift == d ^ (key_byte ^ iv_shift)) by (bit_vector);
            assert(keystream_byte(key@, iv_counter, i as int) == key_byte ^ iv_shift);
        }
        out.push(d ^ key_byte ^ iv_shift);
        i = i + 1;
    }
    assert(out@ =~= xor_stream(key@, data@, iv_counter));
    out
}

pub(crate) fn copy_bytes(v: &Vec<u8>) -> (r: Vec<u8>)
    ensures
        r@ == v@,
{
    let mut r: Vec<u8> = Vec::with_capacity(v.len());
    let mut i: usize = 0;
    while i < v.len()
        invariant
            i <= v@.len(),
            r@ == v@.subrange(0, i as int),
        decreases v@.len() - i,
    {
        r.push(v[i]);
        i = i + 1;
        assert(r@ =~= v@.subrange(0, i as int));
    }
    assert(v@.subrange(0, v@.len() as int) =~= v@);
    r
}

impl EncryptionSession {
    /// A copy with the same field values.
    pub fn duplicate(&self) -> (r: Self)
        ensures
            r.peer_id@ == self.peer_id@,
            r.protocol == self.protocol,
            r.session_key@ == self.session_key@,
            r.iv_counter == self.iv_counter,
            r.established_at == self.established_at,
            r.last_used == self.last_used,
    {
        EncryptionSession {
            peer_id: self.peer_id.clone(),
            protocol: self.protocol,
            session_key: copy_bytes(&self.session_key),
            iv_counter: self.iv_counter,
            established_at: self.established_at,
            last_used: self.last_used,
        }
    }
}

impl AuthCredential {
    /// A copy with the same field values.
    pub fn duplicate(&self) -> (r: Self)
        ensures
            r.peer_id@ == self.peer_id@,
            r.public_key@ == self.public_key@,
            r.signature@ == self.signature@,
            r.issued_at == self.issued_at,
            r.expires_at == self.expires_at,
    {
        AuthCredential {
            peer_id: self.peer_id.clone(),
            public_key: copy_bytes(&self.public_key),
            signature: copy_bytes(&self.signature),
            issued_at: self.issued_at,
            expires_at: self.expires_at,
        }
    }
}

impl CryptoManager {
    pub closed spec fn local_key(&self) -> Seq<u8> {
        self.local_private_key@
    }

    /// Registered public keys by peer.
    pub closed spec fn peer_keys(&self) -> Map<Seq<char>, Vec<u8>> {
        self.peer_public_keys@
    }

    /// Active sessions by peer.
    pub closed spec fn sessions(&self) -> Map<Seq<char>, EncryptionSession> {
        self.active_sessions@
    }

    /// Issued credentials by peer.
    pub closed spec fn issued_credentials(&self) -> Map<Seq<char>, AuthCredential> {
        self.credentials@
    }

    /// Stored certificates by peer.
    pub closed spec fn stored_certificates(&self) -> Map<Seq<char>, CertificateInfo> {
        self.certificates@
    }

    /// Tables are well formed and every session is stored under its own peer id
    /// with a key of `SESSION_KEY_LEN` bytes.
    pub closed spec fn wf(&self) -> bool {
        &&& self.peer_public_keys.wf()
        &&& self.active_sessions.wf()
        &&& self.credentials.wf()
        &&& self.certificates.wf()
        &&& forall|k: Seq<char>| #[trigger] self.active_sessions@.contains_key(k) ==> {
            &&& self.active_sessions@[k].peer_id@ == k
            &&& self.active_sessions@[k].session_key@.len() == SESSION_KEY_LEN
        }
    }

    pub fn new(local_private_key: Vec<u8>) -> (m: Self)
        ensures
            m.wf(),
            m.local_key() == local_private_key@,
            m.peer_keys() == Map::<Seq<char>, Vec<u8>>::empty(),
            m.sessions() == Map::<Seq<char>, EncryptionSession>::empty(),
            m.issued_credentials() == Map::<Seq<char>, AuthCredential>::empty(),
            m.stored_certificates() == Map::<Seq<char>, CertificateInfo>::empty(),
    {
        CryptoManager {
            local_private_key,
            peer_public_keys: KeyedTable::new(),
            active_sessions: KeyedTable::new(),
            credentials: KeyedTable::new(),
            certificates: KeyedTable::new(),
        }
    }

    /// Records the public key of a peer, replacing an earlier one.
    pub fn register_peer_key(&mut self, peer_id: String, public_key: Vec<u8>) -> (r: Result<(), CryptoError>)
        requires
            old(self).wf(),
        ensures
            final(self).wf(),
            r is Ok,
            final(self).peer_keys() == old(self).peer_keys().insert(peer_id@, public_key),
            final(self).sessions() == old(self).sessions(),
            final(self).issued_credentials() == old(self).issued_credentials(),
            final(self).stored_certificates() == old(self).stored_certificates(),
            final(self).local_key() == old(self).local_key(),
    {
        self.peer_public_keys.insert(peer_id, public_key);
        Ok(())
    }

    /// The registered public key of a peer.
    pub fn get_peer_key(&self, peer_id: &String) -> (r: Option<Vec<u8>>)
        requires
            self.wf(),
        ensures
            r is Some <==> self.peer_keys().contains_key(peer_id@),
            r matches Some(k) ==> k@ == self.peer_keys()[peer_id@]@,
    {
        match self.peer_public_keys.get(peer_id) {
            Some(k) => Some(copy_bytes(k)),
            None => None,
        }
    }

    /// The session key: HKDF-SHA256 without salt over the local private key,
    /// with info "nexlink-session-key", 32 bytes.
    pub fn generate_session_key(&self) -> (k: Vec<u8>)
        ensures
            k@ == hkdf_sha256(None, self.local_key(), session_key_info(), SESSION_KEY_LEN as nat),
            k@.len() == SESSION_KEY_LEN,
    {
        let info: [u8; 19] = [110u8, 101, 120, 108, 105, 110, 107, 45, 115, 101, 115, 115, 105, 111, 110, 45, 107, 101, 121];
        let info_slice: &[u8] = &info;
        assert(info_slice@ =~= session_key_info());
        hkdf_sha256_expand(None, self.local_private_key.as_slice(), info_slice, SESSION_KEY_LEN)
    }

    /// Establishes a session with `peer_id` at time `now`, replacing an earlier one:
    /// the derived session key, counter 0, established and last used at `now`.
    pub fn initiate_key_exchange_at(&mut self, peer_id: String, protocol: KeyExchangeProtocol, now: u64) -> (r: Result<EncryptionSession, CryptoError>)
        requires
            old(self).wf(),
        ensures
            final(self).wf(),
            r matches Ok(s) && {
                &&& s.peer_id@ == peer_id@
                &&& s.protocol == protocol
                &&& s.session_key@ == hkdf_sha256(None, old(self).local_key(), session_key_info(), SESSION_KEY_LEN as nat)
                &&& s.iv_counter == 0
                &&& s.established_at == now
                &&& s.last_used == now
                &&& final(self).sessions() == old(self).sessions().insert(peer_id@, final(self).sessions()[peer_id@])
                &&& final(self).sessions()[peer_id@].peer_id@ == s.peer_id@
                &&& final(self).sessions()[peer_id@].protocol == s.protocol
                &&& final(self).sessions()[peer_id@].session_key@ == s.session_key@
                &&& final(self).sessions()[peer_id@].iv_counter == 0
                &&& final(self).sessions()[peer_id@].established_at == now
                &&& final(self).sessions()[peer_id@].last_used == now
            },
            final(self).peer_keys() == old(self).peer_keys(),
            final(self).issued_credentials() == old(self).issued_credentials(),
            final(self).stored_certificates() == old(self).stored_certificates(),
            final(self).local_key() == old(self).local_key(),
    {
        let session_key = self.generate_session_key();
        let session = EncryptionSession {
            peer_id: peer_id.clone(),
            protocol,
            session_key,
            iv_counter: 0,
            established_at: now,
            last_used: now,
        };
        let result = session.duplicate();
        self.active_sessions.insert(peer_id, session);
        Ok(result)
    }

    /// Establishes a session with `peer_id` at the current time (see
    /// `initiate_key_exchange_at`).
    pub fn initiate_key_exchange(&mut self, peer_id: String, protocol: KeyExchangeProtocol) -> (r: Result<EncryptionSession, CryptoError>)
        requires
            old(self).wf(),
        ensures
            final(self).wf(),
            r matches Ok(s) && {
                &&& s.peer_id@ == peer_id@
                &&& s.protocol == protocol
                &&& s.iv_counter == 0
                &&& final(self).sessions().contains_key(peer_id@)
                &&& final(self).sessions()[peer_id@].iv_counter == 0
                &&& final(self).sessions()[peer_id@].session_key@ == s.session_key@
            },
            final(self).sessions().dom() == old(self).sessions().dom().insert(peer_id@),
            final(self).local_key() == old(self).local_key(),
    {
        let now = now_millis();
        self.initiate_key_exchange_at(peer_id, protocol, now)
    }

    /// Encrypts `plaintext` for `peer_id` at time `now`: the plaintext xored with the
    /// session's key stream at its current counter; the counter then advances by
    /// one and the session is marked used at `now`. Fails when there is no session.
    pub fn encrypt_at(&mut self, peer_id: &String, plaintext: &[u8], now: u64) -> (r: Result<Vec<u8>, CryptoError>)
        requires
            old(self).wf(),
            old(self).sessions().contains_key(peer_id@) ==> old(self).sessions()[peer_id@].iv_counter < u64::MAX,
        ensures
            final(self).wf(),
            !old(self).sessions().contains_key(peer_id@) ==> r == Err::<Vec<u8>, CryptoError>(CryptoError::NoActiveSession)
                && final(self).sessions() == old(self).sessions(),
            old(self).sessions().contains_key(peer_id@) ==> {
                let s = old(self).sessions()[peer_id@];
                let t = final(self).sessions()[peer_id@];
                &&& r matches Ok(c) && c@ == xor_stream(s.session_key@, plaintext@, s.iv_counter)
                &&& final(self).sessions().dom() == old(self).sessions().dom()
                &&& forall|k: Seq<char>| k != peer_id@ && #[trigger] old(self).sessions().contains_key(k) ==>
                    final(self).sessions()[k] == old(self).sessions()[k]
                &&& t.iv_counter == s.iv_counter + 1
                &&& t.last_used == now
                &&& t.session_key@ == s.session_key@
                &&& t.peer_id@ == s.peer_id@
                &&& t.protocol == s.protocol
                &&& t.established_at == s.established_at
            },
            final(self).peer_keys() == old(self).peer_keys(),
            final(self).issued_credentials() == old(self).issued_credentials(),
            final(self).stored_certificates() == old(self).stored_certificates(),
            final(self).local_key() == old(self).local_key(),
    {
        let found = match self.active_sessions.get(peer_id) {
            Some(s) => Some(s.duplicate()),
            None => None,
        };
        match found {
            Some(mut session) => {
                let encrypted = xor_with_key_stream(session.session_key.as_slice(), plaintext, session.iv_counter);
                session.iv_counter = session.iv_counter + 1;
                session.last_used = now;
                let ghost before = self.active_sessions@;
                self.active_sessions.insert(peer_id.clone(), session);
                Ok(encrypted)
            },
            None => Err(CryptoError::NoActiveSession),
        }
    }

    /// Encrypts at the current time (see `encrypt_at`).
    pub fn encrypt(&mut self, peer_id: &String, plaintext: &[u8]) -> (r: Result<Vec<u8>, CryptoError>)
        requires
            old(self).wf(),
            old(self).sessions().contains_key(peer_id@) ==> old(self).sessions()[peer_id@].iv_counter < u64::MAX,
        ensures
            final(self).wf(),
            !old(self).sessions().contains_key(peer_id@) ==> r == Err::<Vec<u8>, CryptoError>(CryptoError::NoActiveSession),
            old(self).sessions().contains_key(peer_id@) ==> {
                let s = old(self).sessions()[peer_id@];
                let t = final(self).sessions()[peer_id@];
                &&& r matches Ok(c) && c@ == xor_stream(s.session_key@, plaintext@, s.iv_counter)
                &&& final(self).sessions().dom() == old(self).sessions().dom()
                &&& t.iv_counter == s.iv_counter + 1
                &&& t.session_key@ == s.session_key@
            },
    {
        let now = now_millis();
        self.encrypt_at(peer_id, plaintext, now)
    }

    /// Decrypts `ciphertext` from `peer_id` at time `now`: the session counter first
    /// steps back by one (unless it is 0) and is stored so; the result is the
    /// ciphertext xored with the key stream at that counter. Fails when there is no
    /// session.
    pub fn decrypt_at(&mut self, peer_id: &String, ciphertext: &[u8], now: u64) -> (r: Result<Vec<u8>, CryptoError>)
        requires
            old(self).wf(),
        ensures
            final(self).wf(),
            !old(self).sessions().contains_key(peer_id@) ==> r == Err::<Vec<u8>, CryptoError>(CryptoError::NoActiveSession)
                && final(self).sessions() == old(self).sessions(),
            old(self).sessions().contains_key(peer_id@) ==> {
                let s = old(self).sessions()[peer_id@];
                let t = final(self).sessions()[peer_id@];
                &&& r matches Ok(p) && p@ == xor_stream(s.session_key@, ciphertext@, decrypt_counter(s.iv_counter))
                &&& final(self).sessions().dom() == old(self).sessions().dom()
                &&& forall|k: Seq<char>| k != peer_id@ && #[trigger] old(self).sessions().contains_key(k) ==>
                    final(self).sessions()[k] == old(self).sessions()[k]
                &&& t.iv_counter == decrypt_counter(s.iv_counter)
                &&& t.last_used == now
                &&& t.session_key@ == s.session_key@
                &&& t.peer_id@ == s.peer_id@
                &&& t.protocol == s.protocol
                &&& t.established_at == s.established_at
            },
            final(self).peer_keys() == old(self).peer_keys(),
            final(self).issued_credentials() == old(self).issued_credentials(),
            final(self).stored_certificates() == old(self).stored_certificates(),
            final(self).local_key() == old(self).local_key(),
    {
        let found = match self.active_sessions.get(peer_id) {
            Some(s) => Some(s.duplicate()),
            None => None,
        };
        match found {
            Some(mut session) => {
                if session.iv_counter > 0 {
                    session.iv_counter = session.iv_counter - 1;
                }
                let decrypted = xor_with_key_stream(session.session_key.as_slice(), ciphertext, session.iv_counter);
                session.last_used = now;
                self.active_sessions.insert(peer_id.clone(), session);
                Ok(decrypted)
            },
            None => Err(CryptoError::NoActiveSession),
        }
    }

    /// Decrypts at the current time (see `decrypt_at`).
    pub fn decrypt(&mut self, peer_id: &String, ciphertext: &[u8]) -> (r: Result<Vec<u8>, CryptoError>)
        requires
            old(self).wf(),
        ensures
            final(self).wf(),
            !old(self).sessions().contains_key(peer_id@) ==> r == Err::<Vec<u8>, CryptoError>(CryptoError::NoActiveSession),
            old(self).sessions().contains_key(peer_id@) ==> {
                let s = old(self).sessions()[peer_id@];
                let t = final(self).sessions()[peer_id@];
                &&& r matches Ok(p) && p@ == xor_stream(s.session_key@, ciphertext@, decrypt_counter(s.iv_counter))
                &&& final(self).sessions().dom() == old(self).sessions().dom()
                &&& t.iv_counter == decrypt_counter(s.iv_counter)
                &&& t.session_key@ == s.session_key@
            },
    {
        let now = now_millis();
        self.decrypt_at(peer_id, ciphertext, now)
    }

    /// What `create_auth_credential_at` does at `now` with `signature`, from
    /// this manager to `after`, returning `r`: a credential for the peer with
    /// no public key, the signature, issued at `now` and expiring an hour later
    /// is returned and recorded as the peer's, replacing an earlier one; the
    /// other credentials stay.
    pub open spec fn issued(
        self,
        after: Self,
        peer_id: Seq<char>,
        now: u64,
        signature: Seq<u8>,
        r: Result<AuthCredential, CryptoError>,
    ) -> bool {
        r matches Ok(c) && {
            &&& c.peer_id@ == peer_id
            &&& c.public_key@.len() == 0
            &&& c.signature@ == signature
            &&& c.issued_at == now
            &&& c.expires_at == now + CREDENTIAL_LIFETIME_MS
            &&& after.issued_credentials().dom() == self.issued_credentials().dom().insert(peer_id)
            &&& forall|k: Seq<char>| k != peer_id && #[trigger] self.issued_credentials().contains_key(k) ==>
                after.issued_credentials()[k] == self.issued_credentials()[k]
            &&& after.issued_credentials()[peer_id].peer_id@ == peer_id
            &&& after.issued_credentials()[peer_id].signature@ == signature
            &&& after.issued_credentials()[peer_id].issued_at == now
            &&& after.issued_credentials()[peer_id].expires_at == now + CREDENTIAL_LIFETIME_MS
        }
    }

    /// Issues a credential for `peer_id` at time `now` with the given signature:
    /// valid for one hour, empty public key; it replaces an earlier one.
    pub fn create_auth_credential_at(&mut self, peer_id: String, now: u64, signature: Vec<u8>) -> (r: Result<AuthCredential, CryptoError>)
        requires
            old(self).wf(),
            now <= u64::MAX - CREDENTIAL_LIFETIME_MS,
        ensures
            final(self).wf(),
            old(self).issued(*final(self), peer_id@, now, signature@, r),
            final(self).peer_keys() == old(self).peer_keys(),
            final(self).sessions() == old(self).sessions(),
            final(self).stored_certificates() == old(self).stored_certificates(),
            final(self).local_key() == old(self).local_key(),
    {
        let credential = AuthCredential {
            peer_id: peer_id.clone(),
            public_key: Vec::new(),
            signature,
            issued_at: now,
            expires_at: now + CREDENTIAL_LIFETIME_MS,
        };
        let result = credential.duplicate();
        let ghost old_creds = self.credentials@;
        self.credentials.insert(peer_id, credential);
        proof {
            assert(self.credentials@.dom() =~= old_creds.dom().insert(peer_id@));
        }
        Ok(result)
    }

    /// Issues a credential at the current time with a random 64-byte signature
    /// (see `create_auth_credential_at`): it always succeeds. The time is the
    /// clock's reading, held back so that the expiry time is representable.
    pub fn create_auth_credential(&mut self, peer_id: String) -> (r: Result<AuthCredential, CryptoError>)
        requires
            old(self).wf(),
        ensures
            final(self).wf(),
            r is Ok,
            exists|now: u64, signature: Seq<u8>|
                signature.len() == SIGNATURE_LEN && now <= u64::MAX - CREDENTIAL_LIFETIME_MS
                    && #[trigger] old(self).issued(*final(self), peer_id@, now, signature, r),
            final(self).peer_keys() == old(self).peer_keys(),
            final(self).stored_certificates() == old(self).stored_certificates(),
            final(self).local_key() == old(self).local_key(),
            r matches Ok(c) ==> c.peer_id@ == peer_id@ && c.signature@.len() == SIGNATURE_LEN
                && c.expires_at == c.issued_at + CREDENTIAL_LIFETIME_MS,
            final(self).sessions() == old(self).sessions(),
    {
        let now = now_millis();
        let now = if now > u64::MAX - CREDENTIAL_LIFETIME_MS { u64::MAX - CREDENTIAL_LIFETIME_MS } else { now };
        let signature = random_bytes(SIGNATURE_LEN);
        self.create_auth_credential_at(peer_id, now, signature)
    }

    /// A credential is valid at `now` unless `now` is past its expiry.
    pub fn verify_auth_credential_at(&self, credential: &AuthCredential, now: u64) -> (r: Result<bool, CryptoError>)
        ensures
            r == Ok::<bool, CryptoError>(credential_valid_at(*credential, now)),
    {
        if now > credential.expires_at {
            return Ok(false);
        }
        Ok(true)
    }

    /// Checks a credential against the current time (see `verify_auth_credential_at`).
    pub fn verify_auth_credential(&self, credential: &AuthCredential) -> (r: Result<bool, CryptoError>)
        ensures
            exists|now: u64| r == Ok::<bool, CryptoError>(#[trigger] credential_valid_at(*credential, now)),
            r is Ok,
    {
        let now = now_millis();
        self.verify_auth_credential_at(credential, now)
    }

    /// Stores a certificate under its peer id, replacing an earlier one.
    pub fn store_certificate(&mut self, cert: CertificateInfo) -> (r: Result<(), CryptoError>)
        requires
            old(self).wf(),
        ensures
            final(self).wf(),
            r is Ok,
            final(self).stored_certificates() == old(self).stored_certificates().insert(cert.peer_id@, cert),
            final(self).peer_keys() == old(self).peer_keys(),
            final(self).sessions() == old(self).sessions(),
            final(self).issued_credentials() == old(self).issued_credentials(),
            final(self).local_key() == old(self).local_key(),
    {
        let key = cert.peer_id.clone();
        self.certificates.insert(key, cert);
        Ok(())
    }

    /// A peer's certificate is valid at `now` when one is stored and `now` lies
    /// within its validity period (both ends included).
    pub fn verify_certificate_at(&self, peer_id: &String, now: u64) -> (r: Result<bool, CryptoError>)
        requires
            self.wf(),
        ensures
            r == Ok::<bool, CryptoError>(certificate_valid_at(self.stored_certificates(), peer_id@, now)),
    {
        match self.certificates.get(peer_id) {
            Some(cert) => {
                if now < cert.validity_period.0 || now > cert.validity_period.1 {
                    return Ok(false);
                }
                Ok(true)
            },
            None => Ok(false),
        }
    }

    /// Checks a peer's certificate against the current time (see
    /// `verify_certificate_at`).
    pub fn verify_certificate(&self, peer_id: &String) -> (r: Result<bool, CryptoError>)
        requires
            self.wf(),
        ensures
            exists|now: u64| r == Ok::<bool, CryptoError>(#[trigger] certificate_valid_at(self.stored_certificates(), peer_id@, now)),
            r is Ok,
            !self.stored_certificates().contains_key(peer_id@) ==> r == Ok::<bool, CryptoError>(false),
    {
        let now = now_millis();
        self.verify_certificate_at(peer_id, now)
    }

    /// Removes the sessions that are expired at `now`; the others stay unchanged.
    pub fn cleanup_expired_sessions_at(&mut self, now: u64)
        requires
            old(self).wf(),
        ensures
            final(self).wf(),
            sessions_cleaned(old(self).sessions(), final(self).sessions(), now),
            final(self).peer_keys() == old(self).peer_keys(),
            final(self).issued_credentials() == old(self).issued_credentials(),
            final(self).stored_certificates() == old(self).stored_certificates(),
            final(self).local_key() == old(self).local_key(),
    {
        let ghost old_s = self.active_sessions@;
        let mut i: usize = 0;
        while i < self.active_sessions.len()
            invariant
                self.wf(),
                i <= self.active_sessions.keys().len(),
                self.peer_public_keys == old(self).peer_public_keys,
                self.credentials == old(self).credentials,
                self.certificates == old(self).certificates,
                self.local_private_key == old(self).local_private_key,
                old_s == old(self).active_sessions@,
                forall|k: Seq<char>| #[trigger] self.active_sessions@.contains_key(k) ==>
                    old_s.contains_key(k) && self.active_sessions@[k] == old_s[k],
                forall|k: Seq<char>| #[trigger] old_s.contains_key(k) && !session_expired(old_s[k].established_at, now)
                    ==> self.active_sessions@.contains_key(k),
                forall|j: int| 0 <= j < i ==> !session_expired(
                    #[trigger] self.active_sessions@[self.active_sessions.keys()[j]].established_at, now),
                forall|j: int| 0 <= j < i ==> self.active_sessions@.contains_key(#[trigger] self.active_sessions.keys()[j]),
            decreases self.active_sessions.keys().len() - i,
        {
            let (_, session) = self.active_sessions.entry_at(i);
            let established = session.established_at;
            let expired = now >= established && now - established > MAX_SESSION_AGE_MS;
            if expired {
                let ghost before = self.active_sessions@;
                let ghost before_keys = self.active_sessions.keys();
                let (k, _) = self.active_sessions.remove_at(i);
                proof {
                    assert forall|j: int| 0 <= j < i implies #[trigger] self.active_sessions@.contains_key(self.active_sessions.keys()[j])
                        && self.active_sessions@[self.active_sessions.keys()[j]] == before[before_keys[j]] by {
                        assert(self.active_sessions.keys()[j] == before_keys[j]);
                        assert(before_keys[j] != before_keys[i as int]);
                        assert(before.contains_key(before_keys[j]));
                    }
                    assert forall|j: int| 0 <= j < i implies !session_expired(
                        #[trigger] self.active_sessions@[self.active_sessions.keys()[j]].established_at, now) by {
                        assert(self.active_sessions.keys()[j] == before_keys[j]);
                        assert(before_keys[j] != before_keys[i as int]);
                        assert(before.contains_key(before_keys[j]));
                        assert(!session_expired(before[before_keys[j]].established_at, now));
                    }
                }
            } else {
                i = i + 1;
            }
        }
        proof {
            assert forall|k: Seq<char>| #[trigger] self.active_sessions@.contains_key(k) implies
                !session_expired(old_s[k].established_at, now) by {
                self.active_sessions.lemma_domain();
                assert(self.active_sessions.keys().to_set().contains(k));
                assert(self.active_sessions.keys().contains(k));
                let j = choose|j: int| 0 <= j < self.active_sessions.keys().len() && self.active_sessions.keys()[j] == k;
                assert(!session_expired(self.active_sessions@[self.active_sessions.keys()[j]].established_at, now));
            }
        }
    }

    /// Removes the sessions that are expired at the current time (see
    /// `cleanup_expired_sessions_at`).
    pub fn cleanup_expired_sessions(&mut self)
        requires
            old(self).wf(),
        ensures
            final(self).wf(),
            exists|now: u64| #[trigger] sessions_cleaned(old(self).sessions(), final(self).sessions(), now),
            forall|k: Seq<char>| #[trigger] final(self).sessions().contains_key(k) ==>
                old(self).sessions().contains_key(k) && final(self).sessions()[k] == old(self).sessions()[k],
            final(self).peer_keys() == old(self).peer_keys(),
            final(self).issued_credentials() == old(self).issued_credentials(),
            final(self).stored_certificates() == old(self).stored_certificates(),
            final(self).local_key() == old(self).local_key(),
    {
        let now = now_millis();
        self.cleanup_expired_sessions_at(now)
    }

    /// Number of active sessions.
    pub fn active_session_count(&self) -> (n: usize)
        requires
            self.wf(),
        ensures
            n == self.sessions().dom().len(),
    {
        self.active_sessions.len()
    }
}

/// A credential is valid at `now` unless `now` is past its expiry.
pub open spec fn credential_valid_at(c: AuthCredential, now: u64) -> bool {
    now <= c.expires_at
}

/// A peer's certificate is valid at `now` when one is stored for it and `now`
/// lies within its validity period, both ends included.
pub open spec fn certificate_valid_at(certs: Map<Seq<char>, CertificateInfo>, peer: Seq<char>, now: u64) -> bool {
    certs.contains_key(peer) && certs[peer].validity_period.0 <= now <= certs[peer].validity_period.1
}

/// A credential issued at `now` is valid from then until its expiry an hour
/// later, and not after.
pub proof fn lemma_issued_credential_valid(c: AuthCredential, now: u64, t: u64)
    requires
        c.issued_at == now,
        c.expires_at == now + CREDENTIAL_LIFETIME_MS,
    ensures
        now <= t <= now + CREDENTIAL_LIFETIME_MS ==> credential_valid_at(c, t),
        t > now + CREDENTIAL_LIFETIME_MS ==> !credential_valid_at(c, t),
{
}

/// Once a certificate is stored, its peer's certificate is valid exactly
/// within that certificate's validity period, whatever was stored before.
pub proof fn lemma_stored_certificate_valid(certs: Map<Seq<char>, CertificateInfo>, cert: CertificateInfo, now: u64)
    ensures
        certificate_valid_at(certs.insert(cert.peer_id@, cert), cert.peer_id@, now) == (cert.validity_period.0 <= now
            <= cert.validity_period.1),
{
}

/// Decrypting what was just encrypted for the same peer gives the plaintext back
/// and returns the session counter to where it was.
pub proof fn lemma_encrypt_then_decrypt(key: Seq<u8>, plaintext: Seq<u8>, iv: u64)
    requires
        iv < u64::MAX,
    ensures
        xor_stream(key, xor_stream(key, plaintext, iv), decrypt_counter((iv + 1) as u64)) == plaintext,
        decrypt_counter((iv + 1) as u64) == iv,
{
    lemma_xor_stream_involution(key, plaintext, iv);
}

} // verus!
