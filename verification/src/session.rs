//! Secure sessions with peers, the security policy they answer to, and the
//! privacy filter that pads outgoing data.
//!
//! Peers are named by the text form of their id; times are milliseconds since
//! the Unix epoch.
use crate::clock::now_millis;
use crate::crypto::copy_bytes;
use crate::identity::NodeIdentity;
use crate::random::{random_bytes, random_u32};
use crate::table::KeyedTable;
use vstd::prelude::*;

verus! {

/// Length of a session key in bytes.
pub const SESSION_KEY_BYTES: usize = 32;

/// The key exchange a session was set up with.
#[derive(Debug, Clone, Copy, PartialEq, Eq, Structural)]
pub enum EncryptionKeyType {
    NoiseIK,
    NoiseXX,
}

/// A secure session with a peer.
#[derive(Debug)]
pub struct SecureSession {
    pub peer_id: String,
    pub established_at: u64,
    pub encryption_type: EncryptionKeyType,
    pub session_key: Vec<u8>,
    pub authenticated: bool,
    /// Whether the session has forward secrecy.
    pub forward_secret: bool,
}

/// The values of a session, the peer id as text and the key as bytes.
pub type SessionValues = (Seq<char>, u64, EncryptionKeyType, Seq<u8>, bool, bool);

impl View for SecureSession {
    type V = SessionValues;

    open spec fn view(&self) -> SessionValues {
        (self.peer_id@, self.established_at, self.encryption_type, self.session_key@, self.authenticated, self.forward_secret)
    }
}

impl SecureSession {
    /// A copy with the same values.
    pub fn duplicate(&self) -> (r: Self)
        ensures
            r@ == self@,
    {
        SecureSession {
            peer_id: self.peer_id.clone(),
            established_at: self.established_at,
            encryption_type: self.encryption_type,
            session_key: copy_bytes(&self.session_key),
            authenticated: self.authenticated,
            forward_secret: self.forward_secret,
        }
    }
}

/// The security policy sessions answer to. Durations are in milliseconds.
#[derive(Debug, Clone)]
pub struct SecurityPolicy {
    pub enforce_encryption: bool,
    pub min_tls_version: Option<u8>,
    pub allowed_cipher_suites: Vec<String>,
    pub require_authentication: bool,
    /// The longest a session lives.
    pub max_session_lifetime: u64,
    pub heartbeat_interval: u64,
    pub integrity_check_enabled: bool,
}

impl Default for SecurityPolicy {
    /// Encryption and authentication required, AES-256-GCM and
    /// ChaCha20-Poly1305 allowed, sessions live an hour, heartbeats every 30 s,
    /// integrity checks on.
    fn default() -> (p: Self)
        ensures
            p.enforce_encryption,
            p.min_tls_version is None,
            p.allowed_cipher_suites@.map_values(|s: String| s@) == seq!["AES-256-GCM"@, "ChaCha20-Poly1305"@],
            p.require_authentication,
            p.max_session_lifetime == 3_600_000,
            p.heartbeat_interval == 30_000,
            p.integrity_check_enabled,
    {
        let suites = vec!["AES-256-GCM".to_owned(), "ChaCha20-Poly1305".to_owned()];
        proof {
            assert(suites@.map_values(|s: String| s@) =~= seq!["AES-256-GCM"@, "ChaCha20-Poly1305"@]);
        }
        SecurityPolicy {
            enforce_encryption: true,
            min_tls_version: None,
            allowed_cipher_suites: suites,
            require_authentication: true,
            max_session_lifetime: 3_600_000,
            heartbeat_interval: 30_000,
            integrity_check_enabled: true,
        }
    }
}

/// Why a session could not be set up.
#[derive(Debug, Clone, Copy, PartialEq, Eq, Structural)]
pub enum SessionError {
    /// The peer failed authentication.
    AuthenticationFailed,
}

/// Time elapsed from `from` to `now`, zero when `now` is earlier.
pub open spec fn elapsed(from: u64, now: u64) -> int {
    if now >= from {
        now - from
    } else {
        0
    }
}

/// Manages the secure sessions of the local node.
pub struct SessionManager {
    sessions: KeyedTable<SecureSession>,
    policy: SecurityPolicy,
    local_identity: NodeIdentity,
}

impl SessionManager {
    /// The sessions by peer.
    pub closed spec fn view(&self) -> Map<Seq<char>, SecureSession> {
        self.sessions@
    }

    /// The peers with sessions, in the order the sessions were set up.
    pub closed spec fn order(&self) -> Seq<Seq<char>> {
        self.sessions.keys()
    }

    pub closed spec fn policy_spec(&self) -> SecurityPolicy {
        self.policy
    }

    pub closed spec fn wf(&self) -> bool {
        &&& self.sessions.wf()
        &&& forall|k: Seq<char>| #[trigger] self.sessions@.contains_key(k) ==> self.sessions@[k].peer_id@ == k
    }

    /// Whether the peer's session is live at `now`: it exists and has lived less
    /// than the maximum lifetime.
    pub open spec fn valid_at(&self, peer: Seq<char>, now: u64) -> bool {
        self@.contains_key(peer) && elapsed(self@[peer].established_at, now) < self.policy_spec().max_session_lifetime
    }

    /// The sessions `after` holds once those that have lived longer than the
    /// maximum lifetime at `now` are removed from this manager's: the others
    /// stay unchanged.
    pub open spec fn cleaned_at(&self, after: Self, now: u64) -> bool {
        &&& forall|k: Seq<char>| #[trigger] after@.contains_key(k) <==> self@.contains_key(k) && elapsed(
            self@[k].established_at,
            now,
        ) <= self.policy_spec().max_session_lifetime
        &&& forall|k: Seq<char>| #[trigger] after@.contains_key(k) ==> after@[k] == self@[k]
    }

    /// No sessions yet.
    pub fn new(local_identity: NodeIdentity, policy: SecurityPolicy) -> (m: Self)
        ensures
            m.wf(),
            m@ == Map::<Seq<char>, SecureSession>::empty(),
            m.policy_spec() == policy,
    {
        SessionManager { sessions: KeyedTable::new(), policy, local_identity }
    }

    /// Authenticates a peer; every peer is accepted.
    fn authenticate_peer(&self, peer_id: &String) -> (r: Result<(), SessionError>)
        ensures
            r is Ok,
    {
        Ok(())
    }

    /// A fresh random session key of 32 bytes.
    pub fn generate_session_key(&self) -> (k: Vec<u8>)
        ensures
            k@.len() == SESSION_KEY_BYTES,
    {
        random_bytes(SESSION_KEY_BYTES)
    }

    /// Sets up a session with the peer at `now` with the given key (after
    /// authenticating the peer, when the policy requires it): a Noise XX session,
    /// authenticated and forward secret, replacing any earlier one. Returns a
    /// copy of the session stored.
    pub fn create_secure_session_at(&mut self, peer_id: String, now: u64, session_key: Vec<u8>) -> (r: Result<
        SecureSession,
        SessionError,
    >)
        requires
            old(self).wf(),
        ensures
            final(self).wf(),
            final(self).policy_spec() == old(self).policy_spec(),
            r is Ok,
            r matches Ok(s) ==> s@ == (peer_id@, now, EncryptionKeyType::NoiseXX, session_key@, true, true)
                && final(self)@.contains_key(peer_id@) && final(self)@[peer_id@]@ == s@
                && final(self)@.remove(peer_id@) == old(self)@.remove(peer_id@),
    {
        if self.policy.require_authentication {
            if let Err(e) = self.authenticate_peer(&peer_id) {
                return Err(e);
            }
        }
        let session = SecureSession {
            peer_id,
            established_at: now,
            encryption_type: EncryptionKeyType::NoiseXX,
            session_key,
            authenticated: true,
            forward_secret: true,
        };
        let copy = session.duplicate();
        let key = session.peer_id.clone();
        let ghost k = key@;
        self.sessions.insert(key, session);
        proof {
            assert forall|kk: Seq<char>| #[trigger] self.sessions@.contains_key(kk) implies self.sessions@[kk].peer_id@ == kk by {
                if kk != k {
                    assert(old(self).sessions@.contains_key(kk));
                }
            }
            assert(self@.remove(k) =~= old(self)@.remove(k));
        }
        Ok(copy)
    }

    /// Sets up a session with the peer now (the system clock), with a fresh
    /// random 32-byte key.
    pub fn create_secure_session(&mut self, peer_id: String) -> (r: Result<SecureSession, SessionError>)
        requires
            old(self).wf(),
        ensures
            final(self).wf(),
            final(self).policy_spec() == old(self).policy_spec(),
            r is Ok,
            r matches Ok(s) ==> s.peer_id@ == peer_id@ && s.authenticated && s.forward_secret
                && s.encryption_type == EncryptionKeyType::NoiseXX && s.session_key@.len() == SESSION_KEY_BYTES
                && final(self)@.contains_key(peer_id@) && final(self)@[peer_id@]@ == s@
                && final(self)@.remove(peer_id@) == old(self)@.remove(peer_id@),
    {
        let key = self.generate_session_key();
        let now = now_millis();
        self.create_secure_session_at(peer_id, now, key)
    }

    /// A copy of the peer's session.
    pub fn get_session(&self, peer_id: &String) -> (r: Option<SecureSession>)
        requires
            self.wf(),
        ensures
            r matches Some(s) ==> self@.contains_key(peer_id@) && s@ == self@[peer_id@]@,
            r is None <==> !self@.contains_key(peer_id@),
    {
        match self.sessions.get(peer_id) {
            Some(s) => Some(s.duplicate()),
            None => None,
        }
    }

    /// Removes the peer's session, returning it.
    pub fn remove_session(&mut self, peer_id: &String) -> (r: Option<SecureSession>)
        requires
            old(self).wf(),
        ensures
            final(self).wf(),
            final(self)@ == old(self)@.remove(peer_id@),
            final(self).policy_spec() == old(self).policy_spec(),
            r matches Some(s) ==> old(self)@.contains_key(peer_id@) && s == old(self)@[peer_id@],
            r is None <==> !old(self)@.contains_key(peer_id@),
    {
        let r = self.sessions.remove(peer_id);
        proof {
            assert forall|kk: Seq<char>| #[trigger] self.sessions@.contains_key(kk) implies self.sessions@[kk].peer_id@ == kk by {
                assert(old(self).sessions@.contains_key(kk));
            }
        }
        r
    }

    /// Whether the peer has a session that has lived less than the maximum
    /// lifetime at `now`.
    pub fn is_session_valid_at(&self, peer_id: &String, now: u64) -> (b: bool)
        requires
            self.wf(),
        ensures
            b == self.valid_at(peer_id@, now),
    {
        match self.sessions.get(peer_id) {
            Some(s) => {
                let age = if now >= s.established_at {
                    now - s.established_at
                } else {
                    0
                };
                age < self.policy.max_session_lifetime
            },
            None => false,
        }
    }

    /// `is_session_valid_at` by the system clock: never true without a session.
    pub fn is_session_valid(&self, peer_id: &String) -> (b: bool)
        requires
            self.wf(),
        ensures
            exists|now: u64| b == #[trigger] self.valid_at(peer_id@, now),
            b ==> self@.contains_key(peer_id@),
    {
        let now = now_millis();
        self.is_session_valid_at(peer_id, now)
    }

    /// Removes the sessions that have lived longer than the maximum lifetime at `now`.
    pub fn cleanup_expired_sessions_at(&mut self, now: u64)
        requires
            old(self).wf(),
        ensures
            final(self).wf(),
            final(self).policy_spec() == old(self).policy_spec(),
            old(self).cleaned_at(*final(self), now),
    {
        let ghost before = self@;
        let max = self.policy.max_session_lifetime;
        let mut i: usize = 0;
        proof {
            self.sessions.lemma_domain();
        }
        while i < self.sessions.len()
            invariant
                self.wf(),
                self.policy == old(self).policy,
                max == self.policy.max_session_lifetime,
                before == old(self)@,
                i <= self.sessions.keys().len(),
                forall|k: Seq<char>| #[trigger] self@.contains_key(k) ==> before.contains_key(k) && self@[k] == before[k],
                forall|k: Seq<char>| #[trigger] before.contains_key(k) && elapsed(before[k].established_at, now) <= max
                    ==> self@.contains_key(k),
                forall|a: int| 0 <= a < i ==> elapsed((#[trigger] self.sessions.values()[a]).established_at, now) <= max,
            decreases self.sessions.keys().len() - i,
        {
            proof {
                self.sessions.lemma_domain();
            }
            let (_, s) = self.sessions.entry_at(i);
            let age = if now >= s.established_at {
                now - s.established_at
            } else {
                0
            };
            if age > max {
                let ghost cur = *self;
                let ghost m = self.sessions.keys()[i as int];
                proof {
                    cur.sessions.lemma_index(i as int);
                }
                let _ = self.sessions.remove_at(i);
                proof {
                    self.sessions.lemma_domain();
                    assert(self@ == cur@.remove(m));
                    assert forall|k: Seq<char>| #[trigger] self@.contains_key(k) implies before.contains_key(k) && self@[k]
                        == before[k] by {
                        assert(cur@.contains_key(k));
                    }
                    assert forall|kk: Seq<char>| #[trigger] self.sessions@.contains_key(kk) implies self.sessions@[kk].peer_id@
                        == kk by {
                        assert(cur.sessions@.contains_key(kk));
                    }
                    assert forall|a: int| 0 <= a < i implies elapsed((#[trigger] self.sessions.values()[a]).established_at, now)
                        <= max by {
                        assert(self.sessions.values()[a] == cur.sessions.values()[a]);
                    }
                }
            } else {
                i = i + 1;
            }
        }
        proof {
            self.sessions.lemma_domain();
            assert forall|k: Seq<char>| #[trigger] self@.contains_key(k) implies elapsed(before[k].established_at, now) <= max by {
                assert(self.sessions.keys().to_set().contains(k));
                let a = choose|a: int| 0 <= a < self.sessions.keys().len() && self.sessions.keys()[a] == k;
                self.sessions.lemma_index(a);
            }
        }
    }

    /// `cleanup_expired_sessions_at` by the system clock: only sessions that
    /// existed before remain, unchanged.
    pub fn cleanup_expired_sessions(&mut self)
        requires
            old(self).wf(),
        ensures
            final(self).wf(),
            final(self).policy_spec() == old(self).policy_spec(),
            exists|now: u64| #[trigger] old(self).cleaned_at(*final(self), now),
            forall|k: Seq<char>| #[trigger] final(self)@.contains_key(k) ==> old(self)@.contains_key(k) && final(self)@[k]
                == old(self)@[k],
    {
        let now = now_millis();
        self.cleanup_expired_sessions_at(now);
    }

    /// Copies of all sessions, in the order they were set up.
    pub fn get_all_sessions(&self) -> (r: Vec<SecureSession>)
        requires
            self.wf(),
        ensures
            r@.len() == self.order().len(),
            forall|i: int| 0 <= i < r@.len() ==> (#[trigger] r@[i])@ == self@[self.order()[i]]@,
    {
        let n = self.sessions.len();
        let mut r: Vec<SecureSession> = Vec::new();
        let mut i: usize = 0;
        proof {
            self.sessions.lemma_domain();
        }
        while i < n
            invariant
                self.wf(),
                n == self.order().len(),
                i <= n,
                r@.len() == i,
                forall|j: int| 0 <= j < i ==> (#[trigger] r@[j])@ == self@[self.order()[j]]@,
            decreases n - i,
        {
            let (_, s) = self.sessions.entry_at(i);
            r.push(s.duplicate());
            i = i + 1;
        }
        r
    }

    /// Whether the peer's session meets the policy: always when encryption is
    /// not enforced; otherwise the peer needs an authenticated session (both key
    /// exchanges are allowed).
    pub fn is_compliant_with_policy(&self, peer_id: &String) -> (b: bool)
        requires
            self.wf(),
        ensures
            b == (!self.policy_spec().enforce_encryption || (self@.contains_key(peer_id@) && self@[peer_id@].authenticated)),
    {
        if !self.policy.enforce_encryption {
            return true;
        }
        match self.sessions.get(peer_id) {
            Some(s) => {
                let encryption_allowed = match s.encryption_type {
                    EncryptionKeyType::NoiseIK | EncryptionKeyType::NoiseXX => true,
                };
                encryption_allowed && s.authenticated
            },
            None => false,
        }
    }
}

/// A session set up at time `t` is valid exactly until the maximum lifetime
/// has passed since `t`; once the session is removed, the peer has no valid
/// session.
pub proof fn lemma_session_lifecycle(m: SessionManager, removed: SessionManager, peer: Seq<char>, t: u64, now: u64)
    requires
        m@.contains_key(peer),
        m@[peer].established_at == t,
        t <= now,
        removed@ == m@.remove(peer),
        removed.policy_spec() == m.policy_spec(),
    ensures
        m.valid_at(peer, now) <==> now - t < m.policy_spec().max_session_lifetime,
        !removed.valid_at(peer, now),
{
}

/// The privacy filter applied to outgoing data.
#[derive(Debug, Clone, Copy)]
pub struct PrivacyFilter {
    pub mask_ip_addresses: bool,
    pub hide_user_agent: bool,
    /// Whether random padding is appended.
    pub randomize_request_size: bool,
    pub obfuscate_traffic_pattern: bool,
}

impl Default for PrivacyFilter {
    /// Everything on.
    fn default() -> (f: Self)
        ensures
            f.mask_ip_addresses && f.hide_user_agent && f.randomize_request_size && f.obfuscate_traffic_pattern,
    {
        PrivacyFilter {
            mask_ip_addresses: true,
            hide_user_agent: true,
            randomize_request_size: true,
            obfuscate_traffic_pattern: true,
        }
    }
}

/// The data followed by the padding.
pub fn append_padding(data: &[u8], padding: &Vec<u8>) -> (r: Vec<u8>)
    ensures
        r@ == data@ + padding@,
{
    let mut r: Vec<u8> = Vec::new();
    let mut i: usize = 0;
    while i < data.len()
        invariant
            i <= data@.len(),
            r@ == data@.subrange(0, i as int),
        decreases data@.len() - i,
    {
        r.push(data[i]);
        i = i + 1;
        assert(r@ =~= data@.subrange(0, i as int));
    }
    let mut j: usize = 0;
    while j < padding.len()
        invariant
            i == data@.len(),
            j <= padding@.len(),
            r@ == data@ + padding@.subrange(0, j as int),
        decreases padding@.len() - j,
    {
        r.push(padding[j]);
        j = j + 1;
        assert(r@ =~= data@ + padding@.subrange(0, j as int));
    }
    assert(padding@.subrange(0, padding@.len() as int) =~= padding@);
    r
}

impl PrivacyFilter {
    /// The data, followed (when request sizes are randomized) by a random number
    /// of random bytes, fewer than 1024.
    pub fn apply_privacy_filter(&self, data: &[u8]) -> (r: Vec<u8>)
        ensures
            r@.len() >= data@.len(),
            r@.len() < data@.len() + 1024,
            r@.subrange(0, data@.len() as int) == data@,
            !self.randomize_request_size ==> r@ == data@,
    {
        if self.randomize_request_size {
            let padding_len = (random_u32() % 1024) as usize;
            let padding = random_bytes(padding_len);
            let r = append_padding(data, &padding);
            proof {
                assert(r@.subrange(0, data@.len() as int) =~= data@);
            }
            r
        } else {
            let r = append_padding(data, &Vec::new());
            proof {
                assert(r@ =~= data@);
            }
            r
        }
    }
}

} // verus!
