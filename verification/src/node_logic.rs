//! Decisions of the node and relay programs: which traffic deltas to flush,
//! the provider's table of allowed credentials, ping failures that end a
//! connection, and the relay's handling of credential sync requests.
use crate::proxy_protocol::ProxyCredentials;
use crate::table::KeyedTable;
use vstd::prelude::*;

verus! {

/// Remembers, per peer, the totals last flushed to the store.
pub struct FlushTracker {
    last_flushed: KeyedTable<(u64, u64)>,
}

/// `a - b`, or 0 when `b` is larger.
pub open spec fn sat_sub(a: u64, b: u64) -> u64 {
    if a >= b {
        (a - b) as u64
    } else {
        0
    }
}

impl FlushTracker {
    /// Upload and download totals last flushed, by peer.
    pub closed spec fn view(&self) -> Map<Seq<char>, (u64, u64)> {
        self.last_flushed@
    }

    pub closed spec fn wf(&self) -> bool {
        self.last_flushed.wf()
    }

    /// The totals last flushed for `peer` (zero when never).
    pub open spec fn previous(&self, peer: Seq<char>) -> (u64, u64) {
        if self@.contains_key(peer) {
            self@[peer]
        } else {
            (0, 0)
        }
    }

    /// Nothing flushed yet.
    pub fn new() -> (t: Self)
        ensures
            t.wf(),
            t@ == Map::<Seq<char>, (u64, u64)>::empty(),
    {
        FlushTracker { last_flushed: KeyedTable::new() }
    }

    /// The traffic of a peer since its last flush, given its current totals:
    /// each total minus the one last flushed (0 when it went down). The current
    /// totals are remembered. Nothing is returned when both deltas are 0 and
    /// the peer has no active connection.
    pub fn delta_for(&mut self, peer_id: &String, upload: u64, download: u64, active_connections: u32) -> (r: Option<(u64, u64)>)
        requires
            old(self).wf(),
        ensures
            final(self).wf(),
            final(self)@ == old(self)@.insert(peer_id@, (upload, download)),
            ({
                let prev = old(self).previous(peer_id@);
                let du = sat_sub(upload, prev.0);
                let dd = sat_sub(download, prev.1);
                if du == 0 && dd == 0 && active_connections == 0 {
                    r is None
                } else {
                    r == Some((du, dd))
                }
            }),
    {
        let previous = match self.last_flushed.get(peer_id) {
            Some(p) => *p,
            None => (0, 0),
        };
        let delta_upload = upload.saturating_sub(previous.0);
        let delta_download = download.saturating_sub(previous.1);
        self.last_flushed.insert(peer_id.clone(), (upload, download));
        if delta_upload == 0 && delta_download == 0 && active_connections == 0 {
            None
        } else {
            Some((delta_upload, delta_download))
        }
    }
}

/// The allowed credentials a list gives: each username with the password of
/// its last entry.
pub open spec fn credentials_map(creds: Seq<ProxyCredentials>) -> Map<Seq<char>, String>
    decreases creds.len(),
{
    if creds.len() == 0 {
        Map::empty()
    } else {
        credentials_map(creds.drop_last()).insert(creds.last().username@, creds.last().password)
    }
}

/// Replaces the allowed credentials by those of the list; returns the number
/// of entries in the list.
pub fn replace_allowed_credentials(allowed: &mut KeyedTable<String>, creds: &Vec<ProxyCredentials>) -> (n: usize)
    requires
        old(allowed).wf(),
    ensures
        final(allowed).wf(),
        n == creds@.len(),
        forall|k: Seq<char>| #[trigger] final(allowed)@.contains_key(k) <==> credentials_map(creds@).contains_key(k),
        forall|k: Seq<char>| #[trigger] final(allowed)@.contains_key(k) ==> final(allowed)@[k]@ == credentials_map(
            creds@,
        )[k]@,
{
    allowed.clear();
    let mut i: usize = 0;
    proof {
        assert(creds@.take(0) =~= Seq::<ProxyCredentials>::empty());
    }
    while i < creds.len()
        invariant
            allowed.wf(),
            i <= creds@.len(),
            forall|k: Seq<char>| #[trigger] allowed@.contains_key(k) <==> credentials_map(creds@.take(i as int)).contains_key(k),
            forall|k: Seq<char>| #[trigger] allowed@.contains_key(k) ==> allowed@[k]@ == credentials_map(
                creds@.take(i as int),
            )[k]@,
        decreases creds@.len() - i,
    {
        let c = &creds[i];
        proof {
            assert(creds@.take(i + 1).drop_last() =~= creds@.take(i as int));
            assert(creds@.take(i + 1).last() == creds@[i as int]);
        }
        allowed.insert(c.username.clone(), c.password.clone());
        i = i + 1;
    }
    proof {
        assert(creds@.take(creds@.len() as int) =~= creds@);
    }
    creds.len()
}

/// How a ping failed.
#[derive(Debug, Clone, Copy, PartialEq, Eq, Structural)]
pub enum PingFailureKind {
    /// No response in time.
    Timeout,
    /// The peer does not support ping.
    Unsupported,
    /// Another error; the flag says whether it is an I/O error of kind TimedOut.
    Other { io_timed_out: bool },
}

/// Whether a ping failure is a timeout (which closes the connection).
pub fn is_ping_timeout(failure: PingFailureKind) -> (b: bool)
    ensures
        b == match failure {
            PingFailureKind::Timeout => true,
            PingFailureKind::Unsupported => false,
            PingFailureKind::Other { io_timed_out } => io_timed_out,
        },
{
    match failure {
        PingFailureKind::Timeout => true,
        PingFailureKind::Unsupported => false,
        PingFailureKind::Other { io_timed_out } => io_timed_out,
    }
}

/// Number of short waits the relay allows a provider's registration to arrive in.
pub const REGISTRATION_WAIT_ROUNDS: u32 = 10;

/// What the relay does with a credential sync request.
#[derive(Debug, Clone, Copy, PartialEq, Eq, Structural)]
pub enum RegistrationWait {
    /// The requester is a registered provider: answer.
    Accept,
    /// Wait a little (50 ms) and check again.
    Sleep,
    /// Not registered in time: refuse.
    Reject,
}

/// The relay's next step after `waits_done` waits, given whether the
/// requester is now a registered provider: accept it, wait again (at most 10
/// waits), or refuse.
pub fn registration_wait_step(waits_done: u32, registered: bool) -> (s: RegistrationWait)
    ensures
        registered ==> s == RegistrationWait::Accept,
        !registered && waits_done < REGISTRATION_WAIT_ROUNDS ==> s == RegistrationWait::Sleep,
        !registered && waits_done >= REGISTRATION_WAIT_ROUNDS ==> s == RegistrationWait::Reject,
{
    if registered {
        RegistrationWait::Accept
    } else if waits_done < REGISTRATION_WAIT_ROUNDS {
        RegistrationWait::Sleep
    } else {
        RegistrationWait::Reject
    }
}

/// The connected peers that are not providers, in order: those whose
/// credentials a provider receives.
pub fn peers_needing_credentials(connected: &Vec<String>, providers: &Vec<String>) -> (r: Vec<String>)
    ensures
        r@.map_values(|s: String| s@) == connected@.map_values(|s: String| s@).filter(
            |p: Seq<char>| !providers@.map_values(|s: String| s@).contains(p),
        ),
{
    let ghost pv = providers@.map_values(|s: String| s@);
    let ghost cv = connected@.map_values(|s: String| s@);
    let ghost pred = |p: Seq<char>| !pv.contains(p);
    let mut r: Vec<String> = Vec::new();
    let mut i: usize = 0;
    proof {
        reveal(Seq::filter);
        assert(cv.take(0) =~= Seq::<Seq<char>>::empty());
    }
    while i < connected.len()
        invariant
            i <= connected@.len(),
            pv == providers@.map_values(|s: String| s@),
            cv == connected@.map_values(|s: String| s@),
            pred == (|p: Seq<char>| !pv.contains(p)),
            r@.map_values(|s: String| s@) == cv.take(i as int).filter(pred),
        decreases connected@.len() - i,
    {
        let c = &connected[i];
        let mut is_provider = false;
        let mut j: usize = 0;
        while j < providers.len()
            invariant
                j <= providers@.len(),
                pv == providers@.map_values(|s: String| s@),
                is_provider <==> exists|q: int| 0 <= q < j && pv[q] == c@,
            decreases providers@.len() - j,
        {
            if crate::text::text_eq(providers[j].as_str(), c.as_str()) {
                proof {
                    assert(pv[j as int] == c@);
                }
                is_provider = true;
            }
            j = j + 1;
        }
        proof {
            reveal(Seq::filter);
            assert(cv.take(i + 1).drop_last() =~= cv.take(i as int));
            assert(cv.take(i + 1).last() == c@);
            if pv.contains(c@) {
                let q = choose|q: int| 0 <= q < pv.len() && pv[q] == c@;
                assert(is_provider);
            }
        }
        let ghost before = r@;
        if !is_provider {
            r.push(c.clone());
            proof {
                assert(r@.map_values(|s: String| s@) =~= before.map_values(|s: String| s@).push(c@));
            }
        }
        i = i + 1;
    }
    proof {
        assert(cv.take(connected@.len() as int) =~= cv);
    }
    r
}

} // verus!
