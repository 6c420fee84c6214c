//! Per-peer traffic accounting with an optional byte quota.
//!
//! Peers are named by the text form of their id. A quota of `n` bytes is
//! exceeded once the bytes sent and received together reach `n`; a stored quota
//! of 0 means "no quota".
use crate::clock::now_unix_secs;
use crate::table::KeyedTable;
use crate::traffic::{wrap_add_u64, wrap_dec_u32, wrap_inc_u32, wrapping_add_u64, wrapping_dec_u32, wrapping_inc_u32};
use vstd::prelude::*;

verus! {

/// The traffic rule for one peer.
#[derive(Debug, Clone, Copy)]
pub struct PeerTrafficRule {
    pub byte_quota: Option<u64>,
}

impl Default for PeerTrafficRule {
    fn default() -> (r: Self)
        ensures
            r.byte_quota is None,
    {
        PeerTrafficRule { byte_quota: None }
    }
}

/// A reading of one peer's counters.
#[derive(Debug, Clone)]
pub struct PeerTrafficSnapshot {
    pub peer_id: String,
    pub bytes_sent: u64,
    pub bytes_received: u64,
    pub active_connections: u32,
    pub total_connections: u32,
    pub quota_bytes: Option<u64>,
    pub quota_exceeded: bool,
    pub last_seen_unix_secs: u64,
}

/// The values of a snapshot, the peer id taken as text.
pub type SnapshotValues = (Seq<char>, u64, u64, u32, u32, Option<u64>, bool, u64);

impl View for PeerTrafficSnapshot {
    type V = SnapshotValues;

    open spec fn view(&self) -> SnapshotValues {
        (
            self.peer_id@,
            self.bytes_sent,
            self.bytes_received,
            self.active_connections,
            self.total_connections,
            self.quota_bytes,
            self.quota_exceeded,
            self.last_seen_unix_secs,
        )
    }
}

/// The counters of one peer.
#[derive(Debug, Clone, Copy)]
pub struct PeerTrafficEntry {
    pub bytes_sent: u64,
    pub bytes_received: u64,
    pub active_connections: u32,
    pub total_connections: u32,
    /// The quota in bytes; 0 for none.
    pub quota_bytes: u64,
    pub last_seen_unix_secs: u64,
}

impl PeerTrafficEntry {
    /// The quota, if one is set.
    pub open spec fn quota_spec(self) -> Option<u64> {
        if self.quota_bytes == 0 {
            None
        } else {
            Some(self.quota_bytes)
        }
    }

    /// Bytes sent and received together.
    pub open spec fn total_spec(self) -> int {
        self.bytes_sent + self.bytes_received
    }

    /// The total fits in 64 bits.
    pub open spec fn total_fits(self) -> bool {
        self.total_spec() <= u64::MAX
    }

    /// Checking the quota computes the total, so the total must fit when a quota is set.
    pub open spec fn quota_checkable(self) -> bool {
        self.quota_bytes != 0 ==> self.total_fits()
    }

    /// Whether the quota is set and reached.
    pub open spec fn exceeded_spec(self) -> bool {
        self.quota_bytes != 0 && self.total_spec() >= self.quota_bytes
    }

    /// A fresh entry seen at `now`.
    pub open spec fn fresh(now: u64) -> PeerTrafficEntry {
        PeerTrafficEntry {
            bytes_sent: 0,
            bytes_received: 0,
            active_connections: 0,
            total_connections: 0,
            quota_bytes: 0,
            last_seen_unix_secs: now,
        }
    }

    /// The entry after a connection is opened at `now`: one more active and
    /// one more in total (both wrapping).
    pub open spec fn opened(self, now: u64) -> PeerTrafficEntry {
        PeerTrafficEntry {
            active_connections: wrap_inc_u32(self.active_connections),
            total_connections: wrap_inc_u32(self.total_connections),
            last_seen_unix_secs: now,
            ..self
        }
    }

    /// The entry after a connection is closed at `now`: one fewer active
    /// (wrapping).
    pub open spec fn closed(self, now: u64) -> PeerTrafficEntry {
        PeerTrafficEntry { active_connections: wrap_dec_u32(self.active_connections), last_seen_unix_secs: now, ..self }
    }

    /// The snapshot values of this entry under `peer`.
    pub open spec fn snapshot_spec(self, peer: Seq<char>) -> SnapshotValues {
        (
            peer,
            self.bytes_sent,
            self.bytes_received,
            self.active_connections,
            self.total_connections,
            self.quota_spec(),
            self.exceeded_spec(),
            self.last_seen_unix_secs,
        )
    }

    /// A fresh entry, last seen at `now`.
    pub fn new_at(now: u64) -> (e: Self)
        ensures
            e == PeerTrafficEntry::fresh(now),
    {
        PeerTrafficEntry {
            bytes_sent: 0,
            bytes_received: 0,
            active_connections: 0,
            total_connections: 0,
            quota_bytes: 0,
            last_seen_unix_secs: now,
        }
    }

    /// Stores the quota; `None` (or 0) clears it.
    pub fn set_quota(&mut self, quota: Option<u64>)
        ensures
            *final(self) == (PeerTrafficEntry {
                quota_bytes: match quota {
                    Some(q) => q,
                    None => 0,
                },
                ..*old(self)
            }),
    {
        self.quota_bytes = match quota {
            Some(q) => q,
            None => 0,
        };
    }

    /// The quota, if one is set.
    pub fn quota(&self) -> (r: Option<u64>)
        ensures
            r == self.quota_spec(),
    {
        if self.quota_bytes == 0 {
            None
        } else {
            Some(self.quota_bytes)
        }
    }

    /// Bytes sent and received together.
    pub fn total_bytes(&self) -> (t: u64)
        requires
            self.total_fits(),
        ensures
            t == self.total_spec(),
    {
        self.bytes_sent + self.bytes_received
    }

    /// Whether a quota is set and the total has reached it.
    pub fn quota_exceeded(&self) -> (b: bool)
        requires
            self.quota_checkable(),
        ensures
            b == self.exceeded_spec(),
    {
        match self.quota() {
            Some(limit) => self.total_bytes() >= limit,
            None => false,
        }
    }

    /// Records activity at `now`.
    pub fn touch_at(&mut self, now: u64)
        ensures
            *final(self) == (PeerTrafficEntry { last_seen_unix_secs: now, ..*old(self) }),
    {
        self.last_seen_unix_secs = now;
    }

    /// Records activity now (the system clock); only the last-seen time changes.
    pub fn touch(&mut self)
        ensures
            *final(self) == (PeerTrafficEntry { last_seen_unix_secs: final(self).last_seen_unix_secs, ..*old(self) }),
    {
        let now = now_unix_secs();
        self.touch_at(now);
    }

    /// The counters under the given peer id.
    pub fn snapshot(&self, peer_id: String) -> (s: PeerTrafficSnapshot)
        requires
            self.quota_checkable(),
        ensures
            s@ == self.snapshot_spec(peer_id@),
    {
        PeerTrafficSnapshot {
            peer_id,
            bytes_sent: self.bytes_sent,
            bytes_received: self.bytes_received,
            active_connections: self.active_connections,
            total_connections: self.total_connections,
            quota_bytes: self.quota(),
            quota_exceeded: self.quota_exceeded(),
            last_seen_unix_secs: self.last_seen_unix_secs,
        }
    }
}

impl Default for PeerTrafficEntry {
    /// A fresh entry, last seen now (the system clock).
    fn default() -> (e: Self)
        ensures
            e == PeerTrafficEntry::fresh(e.last_seen_unix_secs),
    {
        PeerTrafficEntry::new_at(now_unix_secs())
    }
}

/// Why a peer's traffic was refused.
#[derive(Debug, Clone)]
pub enum PeerTrafficError {
    /// The peer's quota is set and reached.
    QuotaExceeded { peer_id: String },
}

/// Traffic counters for every peer seen so far.
pub struct PeerTrafficManager {
    peers: KeyedTable<PeerTrafficEntry>,
}

impl PeerTrafficManager {
    /// The entries by peer id.
    pub closed spec fn view(&self) -> Map<Seq<char>, PeerTrafficEntry> {
        self.peers@
    }

    /// The peer ids, in the order peers were first seen.
    pub closed spec fn peer_order(&self) -> Seq<Seq<char>> {
        self.peers.keys()
    }

    pub closed spec fn wf(&self) -> bool {
        self.peers.wf()
    }

    /// The entry of `peer`, or a fresh one seen at `now`.
    pub open spec fn entry_or_fresh(&self, peer: Seq<char>, now: u64) -> PeerTrafficEntry {
        if self@.contains_key(peer) {
            self@[peer]
        } else {
            PeerTrafficEntry::fresh(now)
        }
    }

    /// The snapshot values of every peer, in the order peers were first seen.
    pub open spec fn all_snapshots(&self) -> Seq<SnapshotValues> {
        Seq::new(self.peer_order().len(), |i: int| self@[self.peer_order()[i]].snapshot_spec(self.peer_order()[i]))
    }

    /// Every peer's total fits in 64 bits.
    pub open spec fn totals_fit(&self) -> bool {
        forall|k: Seq<char>| self@.contains_key(k) ==> #[trigger] self@[k].total_fits()
    }

    /// The peer order lists every peer once: its set is the peers' ids, and its
    /// length is their number.
    pub proof fn lemma_order(&self)
        requires
            self.wf(),
        ensures
            self@.dom() == self.peer_order().to_set(),
            self@.dom().len() == self.peer_order().len(),
            self.peer_order().no_duplicates(),
            forall|i: int| 0 <= i < self.peer_order().len() ==> #[trigger] self@.contains_key(self.peer_order()[i]),
    {
        self.peers.lemma_domain();
        assert forall|i: int| 0 <= i < self.peer_order().len() implies #[trigger] self@.contains_key(self.peer_order()[i]) by {
            self.peers.lemma_index(i);
        }
    }

    /// No peers.
    pub fn new() -> (m: Self)
        ensures
            m.wf(),
            m@ == Map::<Seq<char>, PeerTrafficEntry>::empty(),
            m.peer_order() == Seq::<Seq<char>>::empty(),
    {
        PeerTrafficManager { peers: KeyedTable::new() }
    }

    /// The entry of `peer`, created (seen at `now`) when missing.
    fn entry_for_at(&mut self, peer_id: &String, now: u64) -> (e: PeerTrafficEntry)
        requires
            old(self).wf(),
        ensures
            final(self).wf(),
            e == old(self).entry_or_fresh(peer_id@, now),
            final(self)@ == old(self)@.insert(peer_id@, e),
    {
        match self.peers.get(peer_id) {
            Some(e) => {
                let e = *e;
                proof {
                    assert(old(self)@.insert(peer_id@, e) =~= old(self)@);
                }
                e
            },
            None => {
                let e = PeerTrafficEntry::new_at(now);
                self.peers.insert(peer_id.clone(), e);
                e
            },
        }
    }

    /// Sets the peer's quota (creating its entry) and records activity at `now`.
    pub fn set_rule_at(&mut self, peer_id: &String, rule: PeerTrafficRule, now: u64)
        requires
            old(self).wf(),
        ensures
            final(self).wf(),
            final(self)@ == old(self)@.insert(
                peer_id@,
                PeerTrafficEntry {
                    quota_bytes: match rule.byte_quota {
                        Some(q) => q,
                        None => 0,
                    },
                    last_seen_unix_secs: now,
                    ..old(self).entry_or_fresh(peer_id@, now)
                },
            ),
    {
        let mut e = self.entry_for_at(peer_id, now);
        e.set_quota(rule.byte_quota);
        e.touch_at(now);
        self.peers.insert(peer_id.clone(), e);
    }

    /// Sets the peer's quota, at the system clock's time.
    pub fn set_rule(&mut self, peer_id: &String, rule: PeerTrafficRule)
        requires
            old(self).wf(),
        ensures
            final(self).wf(),
            exists|now: u64|
                #![trigger old(self).entry_or_fresh(peer_id@, now)]
                final(self)@ == old(self)@.insert(
                    peer_id@,
                    PeerTrafficEntry {
                        quota_bytes: match rule.byte_quota {
                            Some(q) => q,
                            None => 0,
                        },
                        last_seen_unix_secs: now,
                        ..old(self).entry_or_fresh(peer_id@, now)
                    },
                ),
    {
        let now = now_unix_secs();
        self.set_rule_at(peer_id, rule, now);
    }

    /// Refuses a new connection once the peer's quota is reached (creating the
    /// peer's entry, seen at `now`, when missing).
    pub fn can_open_connection_at(&mut self, peer_id: &String, now: u64) -> (r: Result<(), PeerTrafficError>)
        requires
            old(self).wf(),
            old(self).entry_or_fresh(peer_id@, now).quota_checkable(),
        ensures
            final(self).wf(),
            final(self)@ == old(self)@.insert(peer_id@, old(self).entry_or_fresh(peer_id@, now)),
            r is Ok <==> !old(self).entry_or_fresh(peer_id@, now).exceeded_spec(),
            r matches Err(PeerTrafficError::QuotaExceeded { peer_id: p }) ==> p@ == peer_id@,
    {
        let e = self.entry_for_at(peer_id, now);
        if e.quota_exceeded() {
            return Err(PeerTrafficError::QuotaExceeded { peer_id: peer_id.clone() });
        }
        Ok(())
    }

    /// `can_open_connection_at` at the system clock's time.
    pub fn can_open_connection(&mut self, peer_id: &String) -> (r: Result<(), PeerTrafficError>)
        requires
            old(self).wf(),
            old(self)@.contains_key(peer_id@) ==> old(self)@[peer_id@].quota_checkable(),
        ensures
            final(self).wf(),
            exists|now: u64| final(self)@ == old(self)@.insert(peer_id@, #[trigger] old(self).entry_or_fresh(peer_id@, now)),
            r is Ok <==> !(old(self)@.contains_key(peer_id@) && old(self)@[peer_id@].exceeded_spec()),
            r matches Err(PeerTrafficError::QuotaExceeded { peer_id: p }) ==> p@ == peer_id@,
    {
        let now = now_unix_secs();
        self.can_open_connection_at(peer_id, now)
    }

    /// Opens a connection: refused once the quota is reached; otherwise both
    /// connection counts go up by one (wrapping) and activity is recorded at `now`.
    pub fn open_connection_at(&mut self, peer_id: &String, now: u64) -> (r: Result<(), PeerTrafficError>)
        requires
            old(self).wf(),
            old(self).entry_or_fresh(peer_id@, now).quota_checkable(),
        ensures
            final(self).wf(),
            r is Ok <==> !old(self).entry_or_fresh(peer_id@, now).exceeded_spec(),
            r matches Err(PeerTrafficError::QuotaExceeded { peer_id: p }) ==> p@ == peer_id@,
            r is Err ==> final(self)@ == old(self)@.insert(peer_id@, old(self).entry_or_fresh(peer_id@, now)),
            r is Ok ==> final(self)@ == old(self)@.insert(peer_id@, old(self).entry_or_fresh(peer_id@, now).opened(now)),
    {
        self.can_open_connection_at(peer_id, now)?;
        let mut e = self.entry_for_at(peer_id, now);
        e.active_connections = wrapping_inc_u32(e.active_connections);
        e.total_connections = wrapping_inc_u32(e.total_connections);
        e.touch_at(now);
        self.peers.insert(peer_id.clone(), e);
        Ok(())
    }

    /// `open_connection_at` at the system clock's time.
    pub fn open_connection(&mut self, peer_id: &String) -> (r: Result<(), PeerTrafficError>)
        requires
            old(self).wf(),
            old(self)@.contains_key(peer_id@) ==> old(self)@[peer_id@].quota_checkable(),
        ensures
            final(self).wf(),
            r is Ok <==> !(old(self)@.contains_key(peer_id@) && old(self)@[peer_id@].exceeded_spec()),
            r matches Err(PeerTrafficError::QuotaExceeded { peer_id: p }) ==> p@ == peer_id@,
            exists|now: u64|
                #![trigger old(self).entry_or_fresh(peer_id@, now)]
                {
                    let e = old(self).entry_or_fresh(peer_id@, now);
                    &&& r is Err ==> final(self)@ == old(self)@.insert(peer_id@, e)
                    &&& r is Ok ==> final(self)@ == old(self)@.insert(peer_id@, e.opened(now))
                },
    {
        let now = now_unix_secs();
        self.open_connection_at(peer_id, now)
    }

    /// Closes a connection: the active count goes down by one (wrapping) and
    /// activity is recorded at `now`.
    pub fn close_connection_at(&mut self, peer_id: &String, now: u64)
        requires
            old(self).wf(),
        ensures
            final(self).wf(),
            final(self)@ == old(self)@.insert(peer_id@, old(self).entry_or_fresh(peer_id@, now).closed(now)),
    {
        let mut e = self.entry_for_at(peer_id, now);
        e.active_connections = wrapping_dec_u32(e.active_connections);
        e.touch_at(now);
        self.peers.insert(peer_id.clone(), e);
    }

    /// `close_connection_at` at the system clock's time.
    pub fn close_connection(&mut self, peer_id: &String)
        requires
            old(self).wf(),
        ensures
            final(self).wf(),
            exists|now: u64|
                #![trigger old(self).entry_or_fresh(peer_id@, now)]
                final(self)@ == old(self)@.insert(peer_id@, old(self).entry_or_fresh(peer_id@, now).closed(now)),
    {
        let now = now_unix_secs();
        self.close_connection_at(peer_id, now);
    }

    /// The entry after `n` more bytes sent, seen at `now`.
    pub open spec fn after_sent(&self, peer: Seq<char>, n: u64, now: u64) -> PeerTrafficEntry {
        let e = self.entry_or_fresh(peer, now);
        PeerTrafficEntry { bytes_sent: wrap_add_u64(e.bytes_sent, n), last_seen_unix_secs: now, ..e }
    }

    /// The entry after `n` more bytes received, seen at `now`.
    pub open spec fn after_received(&self, peer: Seq<char>, n: u64, now: u64) -> PeerTrafficEntry {
        let e = self.entry_or_fresh(peer, now);
        PeerTrafficEntry { bytes_received: wrap_add_u64(e.bytes_received, n), last_seen_unix_secs: now, ..e }
    }

    /// Counts `n` bytes sent to the peer (activity at `now`); fails, with the
    /// bytes counted, once the quota is reached.
    pub fn record_sent_at(&mut self, peer_id: &String, n: u64, now: u64) -> (r: Result<(), PeerTrafficError>)
        requires
            old(self).wf(),
            old(self).after_sent(peer_id@, n, now).quota_checkable(),
        ensures
            final(self).wf(),
            final(self)@ == old(self)@.insert(peer_id@, old(self).after_sent(peer_id@, n, now)),
            r is Ok <==> !old(self).after_sent(peer_id@, n, now).exceeded_spec(),
            r matches Err(PeerTrafficError::QuotaExceeded { peer_id: p }) ==> p@ == peer_id@,
    {
        let mut e = self.entry_for_at(peer_id, now);
        e.bytes_sent = wrapping_add_u64(e.bytes_sent, n);
        e.touch_at(now);
        self.peers.insert(peer_id.clone(), e);
        if e.quota_exceeded() {
            return Err(PeerTrafficError::QuotaExceeded { peer_id: peer_id.clone() });
        }
        Ok(())
    }

    /// `record_sent_at` at the system clock's time.
    pub fn record_sent(&mut self, peer_id: &String, n: u64) -> (r: Result<(), PeerTrafficError>)
        requires
            old(self).wf(),
            old(self).after_sent(peer_id@, n, 0).quota_checkable(),
        ensures
            final(self).wf(),
            exists|now: u64|
                #![trigger old(self).after_sent(peer_id@, n, now)]
                final(self)@ == old(self)@.insert(peer_id@, old(self).after_sent(peer_id@, n, now)) && (r is Ok
                    <==> !old(self).after_sent(peer_id@, n, now).exceeded_spec()),
            r matches Err(PeerTrafficError::QuotaExceeded { peer_id: p }) ==> p@ == peer_id@,
    {
        let now = now_unix_secs();
        self.record_sent_at(peer_id, n, now)
    }

    /// Counts `n` bytes received from the peer (activity at `now`); fails, with
    /// the bytes counted, once the quota is reached.
    pub fn record_received_at(&mut self, peer_id: &String, n: u64, now: u64) -> (r: Result<(), PeerTrafficError>)
        requires
            old(self).wf(),
            old(self).after_received(peer_id@, n, now).quota_checkable(),
        ensures
            final(self).wf(),
            final(self)@ == old(self)@.insert(peer_id@, old(self).after_received(peer_id@, n, now)),
            r is Ok <==> !old(self).after_received(peer_id@, n, now).exceeded_spec(),
            r matches Err(PeerTrafficError::QuotaExceeded { peer_id: p }) ==> p@ == peer_id@,
    {
        let mut e = self.entry_for_at(peer_id, now);
        e.bytes_received = wrapping_add_u64(e.bytes_received, n);
        e.touch_at(now);
        self.peers.insert(peer_id.clone(), e);
        if e.quota_exceeded() {
            return Err(PeerTrafficError::QuotaExceeded { peer_id: peer_id.clone() });
        }
        Ok(())
    }

    /// `record_received_at` at the system clock's time.
    pub fn record_received(&mut self, peer_id: &String, n: u64) -> (r: Result<(), PeerTrafficError>)
        requires
            old(self).wf(),
            old(self).after_received(peer_id@, n, 0).quota_checkable(),
        ensures
            final(self).wf(),
            exists|now: u64|
                #![trigger old(self).after_received(peer_id@, n, now)]
                final(self)@ == old(self)@.insert(peer_id@, old(self).after_received(peer_id@, n, now)) && (r is Ok
                    <==> !old(self).after_received(peer_id@, n, now).exceeded_spec()),
            r matches Err(PeerTrafficError::QuotaExceeded { peer_id: p }) ==> p@ == peer_id@,
    {
        let now = now_unix_secs();
        self.record_received_at(peer_id, n, now)
    }

    /// The peer's counters (its entry created, seen at `now`, when missing).
    pub fn snapshot_at(&mut self, peer_id: &String, now: u64) -> (s: PeerTrafficSnapshot)
        requires
            old(self).wf(),
            old(self).entry_or_fresh(peer_id@, now).quota_checkable(),
        ensures
            final(self).wf(),
            final(self)@ == old(self)@.insert(peer_id@, old(self).entry_or_fresh(peer_id@, now)),
            s@ == old(self).entry_or_fresh(peer_id@, now).snapshot_spec(peer_id@),
    {
        let e = self.entry_for_at(peer_id, now);
        e.snapshot(peer_id.clone())
    }

    /// `snapshot_at` at the system clock's time.
    pub fn snapshot(&mut self, peer_id: &String) -> (s: PeerTrafficSnapshot)
        requires
            old(self).wf(),
            old(self)@.contains_key(peer_id@) ==> old(self)@[peer_id@].quota_checkable(),
        ensures
            final(self).wf(),
            exists|now: u64|
                #![trigger old(self).entry_or_fresh(peer_id@, now)]
                final(self)@ == old(self)@.insert(peer_id@, old(self).entry_or_fresh(peer_id@, now)) && s@
                    == old(self).entry_or_fresh(peer_id@, now).snapshot_spec(peer_id@),
    {
        let now = now_unix_secs();
        self.snapshot_at(peer_id, now)
    }

    /// Every peer's counters, the largest total (sent plus received) first.
    pub fn snapshot_all(&self) -> (r: Vec<PeerTrafficSnapshot>)
        requires
            self.wf(),
            self.totals_fit(),
        ensures
            r@.map_values(|s: PeerTrafficSnapshot| s@).to_multiset() == self.all_snapshots().to_multiset(),
            r@.len() == self@.dom().len(),
            forall|i: int, j: int| 0 <= i < j < r@.len() ==> snapshot_total(r@[i]@) >= snapshot_total(r@[j]@),
    {
        proof {
            self.lemma_order();
        }
        let n = self.peers.len();
        let mut out: Vec<PeerTrafficSnapshot> = Vec::new();
        let mut i: usize = 0;
        proof {
            assert(out@.map_values(|s: PeerTrafficSnapshot| s@) =~= self.all_snapshots().take(0));
        }
        while i < n
            invariant
                self.wf(),
                self.totals_fit(),
                n == self.peer_order().len(),
                forall|k: int| 0 <= k < self.peer_order().len() ==> #[trigger] self@.contains_key(self.peer_order()[k]),
                i <= n,
                out@.len() == i,
                out@.map_values(|s: PeerTrafficSnapshot| s@).to_multiset() == self.all_snapshots().take(i as int).to_multiset(),
                forall|a: int, b: int| 0 <= a < b < out@.len() ==> snapshot_total(out@[a]@) >= snapshot_total(out@[b]@),
                forall|a: int| 0 <= a < out@.len() ==> #[trigger] out@[a].bytes_sent + out@[a].bytes_received <= u64::MAX,
            decreases n - i,
        {
            let (key, e) = self.peers.entry_at(i);
            proof {
                self.peers.lemma_index(i as int);
                assert(self@.contains_key(self.peer_order()[i as int]));
                assert(e.total_fits());
            }
            let snap = e.snapshot(key.clone());
            let total = e.bytes_sent + e.bytes_received;
            let mut pos: usize = 0;
            while pos < out.len() && out[pos].bytes_sent + out[pos].bytes_received >= total
                invariant
                    pos <= out@.len(),
                    forall|a: int| 0 <= a < out@.len() ==> #[trigger] out@[a].bytes_sent + out@[a].bytes_received <= u64::MAX,
                    forall|a: int| 0 <= a < pos ==> snapshot_total(#[trigger] out@[a]@) >= total,
                decreases out@.len() - pos,
            {
                pos = pos + 1;
            }
            proof {
                if pos < out@.len() {
                    assert(out@[pos as int].bytes_sent + out@[pos as int].bytes_received <= u64::MAX);
                }
            }
            let ghost before = out@;
            out.insert(pos, snap);
            proof {
                let mb = before.map_values(|s: PeerTrafficSnapshot| s@);
                assert(out@.map_values(|s: PeerTrafficSnapshot| s@) =~= mb.insert(pos as int, snap@));
                vstd::seq_lib::to_multiset_insert(mb, pos as int, snap@);
                let all = self.all_snapshots();
                assert(all.take(i + 1) =~= all.take(i as int).push(all[i as int]));
                vstd::seq_lib::to_multiset_build(all.take(i as int), all[i as int]);
                assert(all[i as int] == snap@);
                assert forall|a: int, b: int| 0 <= a < b < out@.len() implies snapshot_total(out@[a]@) >= snapshot_total(out@[b]@) by {
                    if b < pos {
                        assert(out@[a] == before[a] && out@[b] == before[b]);
                    } else if b == pos {
                        assert(out@[a] == before[a]);
                    } else if a < pos {
                        assert(out@[a] == before[a] && out@[b] == before[b - 1]);
                    } else if a == pos {
                        assert(out@[b] == before[b - 1]);
                        assert(snapshot_total(before[pos as int]@) < total);
                        assert(snapshot_total(before[pos as int]@) >= snapshot_total(before[b - 1]@) || b - 1 == pos);
                    } else {
                        assert(out@[a] == before[a - 1] && out@[b] == before[b - 1]);
                    }
                }
                assert forall|a: int| 0 <= a < out@.len() implies #[trigger] out@[a].bytes_sent + out@[a].bytes_received <= u64::MAX by {
                    if a < pos {
                        assert(out@[a] == before[a]);
                    } else if a > pos {
                        assert(out@[a] == before[a - 1]);
                    }
                }
            }
            i = i + 1;
        }
        proof {
            assert(self.all_snapshots().take(n as int) =~= self.all_snapshots());
        }
        out
    }
}

/// Bytes sent and received together, of snapshot values.
pub open spec fn snapshot_total(s: SnapshotValues) -> int {
    s.1 + s.2
}

/// Once a peer's quota is set and reached, further traffic from or to it is
/// refused, and so is a new connection: the quota stays exceeded whatever
/// bytes are counted afterwards (as long as the total fits in 64 bits).
pub proof fn lemma_quota_stays_exceeded(m: PeerTrafficManager, peer: Seq<char>, n: u64, now: u64)
    requires
        m@.contains_key(peer),
        m@[peer].exceeded_spec(),
        m@[peer].total_spec() + n <= u64::MAX,
    ensures
        m.after_sent(peer, n, now).exceeded_spec(),
        m.after_received(peer, n, now).exceeded_spec(),
{
}

/// Opening a connection to a peer and closing it again leaves the active
/// count as it was and adds one to the total (when neither count is at its
/// limit); the byte counters and the quota do not change.
pub proof fn lemma_open_close_peer_connection(e: PeerTrafficEntry, opened_at: u64, closed_at: u64)
    requires
        e.active_connections < u32::MAX,
        e.total_connections < u32::MAX,
    ensures
        e.opened(opened_at).closed(closed_at).active_connections == e.active_connections,
        e.opened(opened_at).closed(closed_at).total_connections == e.total_connections + 1,
        e.opened(opened_at).closed(closed_at).bytes_sent == e.bytes_sent,
        e.opened(opened_at).closed(closed_at).bytes_received == e.bytes_received,
        e.opened(opened_at).closed(closed_at).quota_bytes == e.quota_bytes,
{
}

} // verus!
