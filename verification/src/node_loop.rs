//! The event loop of a node, as a step function: given what the node knows and
//! what just happened (a connection, a rendezvous answer, a ping failure, a
//! timer tick), what it knows next and what it does. The program performs the
//! actions (dialling, registering, starting the local proxy) and feeds back
//! the events.
use vstd::prelude::*;

verus! {

/// What the node loop knows.
#[derive(Debug, Clone, Copy, PartialEq, Eq, Structural)]
pub struct NodeLoopState {
    /// The node serves as a provider (otherwise it is a client).
    pub provider: bool,
    /// The node is registered with (provider) or discovering through (client)
    /// the relay's rendezvous point.
    pub registered: bool,
    /// The local unified proxy has been started (client mode).
    pub proxy_started: bool,
    /// The relay has issued this node's proxy credentials (client mode).
    pub has_credentials: bool,
    /// A dial to the relay is under way.
    pub relay_dial_in_flight: bool,
}

/// Something that happened to the node.
#[derive(Debug, Clone)]
pub enum NodeEvent {
    /// The connection to the relay is established.
    RelayConnected,
    /// The relay identified this node.
    RelayIdentified,
    /// The rendezvous point confirmed this node's registration.
    Registered,
    /// The rendezvous point answered a discovery: each peer with whether the
    /// node is connected to it, and the node's own id.
    Discovered { peers: Vec<(String, bool)>, local: String },
    /// A ping to the relay timed out.
    RelayPingTimeout,
    /// The connection to the relay closed.
    RelayClosed,
    /// A dial failed: to `peer`, which is the relay or not, through a relay
    /// circuit or not.
    DialError { peer: String, relay: bool, circuit: bool },
    /// The periodic discovery timer fired.
    DiscoverTick,
    /// The relay retry timer fired; `connected` says whether the relay is
    /// connected.
    RelayRetryTick { connected: bool },
    /// A redial of the relay could not be started.
    RelayDialFailed,
    /// The relay issued this node's proxy credentials.
    CredentialsReceived,
}

/// Something the node does.
#[derive(Debug, Clone, PartialEq, Eq)]
pub enum NodeAction {
    /// Ask the relay for this node's proxy credentials.
    RequestCredentials,
    /// Fetch the credentials of all client nodes from the relay (provider).
    SyncCredentials,
    /// Register with the relay's rendezvous point (provider).
    Register,
    /// Ask the rendezvous point for the registered providers.
    Discover,
    /// Dial a peer directly.
    Dial(String),
    /// Dial a peer through the relay circuit.
    DialViaCircuit(String),
    /// Start the local unified proxy towards this provider.
    StartProxy(String),
    /// Dial the relay again.
    RedialRelay,
    /// Close the connection to the relay.
    CloseRelayConnection,
}

/// The state after the relay connection is lost (closed, timed out, or a dial
/// to it failed): not registered, no credentials, no dial under way.
pub open spec fn relay_lost(s: NodeLoopState) -> NodeLoopState {
    NodeLoopState { registered: false, has_credentials: false, relay_dial_in_flight: false, ..s }
}

/// The answer to a discovery, peer by peer: each peer other than the node
/// itself is dialled unless connected; a client with credentials whose proxy
/// is not started yet starts it towards the first such peer. Returns whether
/// the proxy is started afterwards and the actions.
pub open spec fn discovered_step(
    provider: bool,
    has_credentials: bool,
    started: bool,
    peers: Seq<(String, bool)>,
    local: Seq<char>,
) -> (bool, Seq<NodeAction>)
    decreases peers.len(),
{
    if peers.len() == 0 {
        (started, Seq::empty())
    } else {
        let prev = discovered_step(provider, has_credentials, started, peers.drop_last(), local);
        let peer = peers.last().0;
        let connected = peers.last().1;
        if peer@ == local {
            prev
        } else {
            let dial: Seq<NodeAction> = if connected {
                Seq::empty()
            } else {
                seq![NodeAction::Dial(peer)]
            };
            if !provider && !prev.0 && has_credentials {
                (true, prev.1 + dial + seq![NodeAction::StartProxy(peer)])
            } else {
                (prev.0, prev.1 + dial)
            }
        }
    }
}

/// The node loop's transitions:
/// - relay connected: no dial under way; a client without credentials asks for them;
/// - identified by the relay while not registered: a provider registers; a
///   client counts as registered and discovers;
/// - registered: a provider fetches the client credentials; both discover;
/// - discovered: see `discovered_step`;
/// - relay ping timeout: the relay is lost, and its connection is closed;
/// - relay closed: the relay is lost;
/// - dial error: to the relay, the relay is lost; to another peer, not through
///   a circuit, it is dialled again through the relay circuit;
/// - discovery tick, when registered: discover again; a provider refreshes the
///   client credentials, a client without credentials asks for them;
/// - relay retry tick: when the relay is not connected and no dial is under
///   way, redial it;
/// - relay dial failed: no dial under way;
/// - credentials received: the client has credentials.
pub open spec fn node_step_spec(s: NodeLoopState, e: NodeEvent) -> (NodeLoopState, Seq<NodeAction>) {
    match e {
        NodeEvent::RelayConnected => (
            NodeLoopState { relay_dial_in_flight: false, ..s },
            if !s.provider && !s.has_credentials {
                seq![NodeAction::RequestCredentials]
            } else {
                Seq::empty()
            },
        ),
        NodeEvent::RelayIdentified => if s.registered {
            (s, Seq::empty())
        } else if s.provider {
            (s, seq![NodeAction::Register])
        } else {
            (NodeLoopState { registered: true, ..s }, seq![NodeAction::Discover])
        },
        NodeEvent::Registered => (
            NodeLoopState { registered: true, ..s },
            if s.provider {
                seq![NodeAction::SyncCredentials, NodeAction::Discover]
            } else {
                seq![NodeAction::Discover]
            },
        ),
        NodeEvent::Discovered { peers, local } => {
            let d = discovered_step(s.provider, s.has_credentials, s.proxy_started, peers@, local@);
            (NodeLoopState { proxy_started: d.0, ..s }, d.1)
        },
        NodeEvent::RelayPingTimeout => (relay_lost(s), seq![NodeAction::CloseRelayConnection]),
        NodeEvent::RelayClosed => (relay_lost(s), Seq::empty()),
        NodeEvent::DialError { peer, relay, circuit } => (
            if relay {
                relay_lost(s)
            } else {
                s
            },
            if !relay && !circuit {
                seq![NodeAction::DialViaCircuit(peer)]
            } else {
                Seq::empty()
            },
        ),
        NodeEvent::DiscoverTick => if s.registered {
            (
                s,
                if s.provider {
                    seq![NodeAction::Discover, NodeAction::SyncCredentials]
                } else if !s.has_credentials {
                    seq![NodeAction::Discover, NodeAction::RequestCredentials]
                } else {
                    seq![NodeAction::Discover]
                },
            )
        } else {
            (s, Seq::empty())
        },
        NodeEvent::RelayRetryTick { connected } => if !connected && !s.relay_dial_in_flight {
            (NodeLoopState { relay_dial_in_flight: true, ..s }, seq![NodeAction::RedialRelay])
        } else {
            (s, Seq::empty())
        },
        NodeEvent::RelayDialFailed => (NodeLoopState { relay_dial_in_flight: false, ..s }, Seq::empty()),
        NodeEvent::CredentialsReceived => (NodeLoopState { has_credentials: true, ..s }, Seq::empty()),
    }
}

/// The state a node starts in: nothing known, a dial to the relay under way.
pub fn initial_node_state(provider: bool) -> (s: NodeLoopState)
    ensures
        s == (NodeLoopState {
            provider,
            registered: false,
            proxy_started: false,
            has_credentials: false,
            relay_dial_in_flight: true,
        }),
{
    NodeLoopState { provider, registered: false, proxy_started: false, has_credentials: false, relay_dial_in_flight: true }
}

fn discovered_actions(
    provider: bool,
    has_credentials: bool,
    started: bool,
    peers: Vec<(String, bool)>,
    local: &String,
) -> (r: (bool, Vec<NodeAction>))
    ensures
        (r.0, r.1@) == discovered_step(provider, has_credentials, started, peers@, local@),
{
    let mut now_started = started;
    let mut out: Vec<NodeAction> = Vec::new();
    let n = peers.len();
    let mut i: usize = 0;
    proof {
        assert(peers@.take(0) =~= Seq::<(String, bool)>::empty());
    }
    while i < n
        invariant
            n == peers@.len(),
            i <= n,
            (now_started, out@) == discovered_step(provider, has_credentials, started, peers@.take(i as int), local@),
        decreases n - i,
    {
        let (peer, connected) = (&peers[i].0, peers[i].1);
        let ghost before = out@;
        proof {
            assert(peers@.take(i + 1).drop_last() =~= peers@.take(i as int));
            assert(peers@.take(i + 1).last() == peers@[i as int]);
        }
        if !same_text(peer.as_str(), local.as_str()) {
            if !connected {
                out.push(NodeAction::Dial(peer.clone()));
            }
            if !provider && !now_started && has_credentials {
                out.push(NodeAction::StartProxy(peer.clone()));
                now_started = true;
                proof {
                    assert(out@ =~= before + (if connected {
                        Seq::<NodeAction>::empty()
                    } else {
                        seq![NodeAction::Dial(*peer)]
                    }) + seq![NodeAction::StartProxy(*peer)]);
                }
            } else {
                proof {
                    assert(out@ =~= before + (if connected {
                        Seq::<NodeAction>::empty()
                    } else {
                        seq![NodeAction::Dial(*peer)]
                    }));
                }
            }
        }
        i = i + 1;
    }
    proof {
        assert(peers@.take(n as int) =~= peers@);
    }
    (now_started, out)
}

fn same_text(a: &str, b: &str) -> (r: bool)
    ensures
        r == (a@ == b@),
{
    let n = a.unicode_len();
    if n != b.unicode_len() {
        return false;
    }
    let mut i: usize = 0;
    while i < n
        invariant
            n == a@.len(),
            n == b@.len(),
            i <= n,
            forall|k: int| 0 <= k < i ==> a@[k] == b@[k],
        decreases n - i,
    {
        if a.get_char(i) != b.get_char(i) {
            return false;
        }
        i = i + 1;
    }
    proof {
        assert(a@ =~= b@);
    }
    true
}

/// One step of the node loop (see `node_step_spec`).
pub fn node_step(s: &NodeLoopState, e: NodeEvent) -> (r: (NodeLoopState, Vec<NodeAction>))
    ensures
        (r.0, r.1@) == node_step_spec(*s, e),
{
    let s = *s;
    let lost = NodeLoopState { registered: false, has_credentials: false, relay_dial_in_flight: false, ..s };
    match e {
        NodeEvent::RelayConnected => {
            let next = NodeLoopState { relay_dial_in_flight: false, ..s };
            if !s.provider && !s.has_credentials {
                (next, vec![NodeAction::RequestCredentials])
            } else {
                (next, Vec::new())
            }
        },
        NodeEvent::RelayIdentified => {
            if s.registered {
                (s, Vec::new())
            } else if s.provider {
                (s, vec![NodeAction::Register])
            } else {
                (NodeLoopState { registered: true, ..s }, vec![NodeAction::Discover])
            }
        },
        NodeEvent::Registered => {
            let next = NodeLoopState { registered: true, ..s };
            if s.provider {
                (next, vec![NodeAction::SyncCredentials, NodeAction::Discover])
            } else {
                (next, vec![NodeAction::Discover])
            }
        },
        NodeEvent::Discovered { peers, local } => {
            let (started, actions) = discovered_actions(s.provider, s.has_credentials, s.proxy_started, peers, &local);
            (NodeLoopState { proxy_started: started, ..s }, actions)
        },
        NodeEvent::RelayPingTimeout => (lost, vec![NodeAction::CloseRelayConnection]),
        NodeEvent::RelayClosed => (lost, Vec::new()),
        NodeEvent::DialError { peer, relay, circuit } => {
            let next = if relay {
                lost
            } else {
                s
            };
            if !relay && !circuit {
                (next, vec![NodeAction::DialViaCircuit(peer)])
            } else {
                (next, Vec::new())
            }
        },
        NodeEvent::DiscoverTick => {
            if !s.registered {
                (s, Vec::new())
            } else if s.provider {
                (s, vec![NodeAction::Discover, NodeAction::SyncCredentials])
            } else if !s.has_credentials {
                (s, vec![NodeAction::Discover, NodeAction::RequestCredentials])
            } else {
                (s, vec![NodeAction::Discover])
            }
        },
        NodeEvent::RelayRetryTick { connected } => {
            if !connected && !s.relay_dial_in_flight {
                (NodeLoopState { relay_dial_in_flight: true, ..s }, vec![NodeAction::RedialRelay])
            } else {
                (s, Vec::new())
            }
        },
        NodeEvent::RelayDialFailed => (NodeLoopState { relay_dial_in_flight: false, ..s }, Vec::new()),
        NodeEvent::CredentialsReceived => (NodeLoopState { has_credentials: true, ..s }, Vec::new()),
    }
}

/// `a` starts the local proxy.
pub open spec fn starts_proxy(a: NodeAction) -> bool {
    a is StartProxy
}

proof fn lemma_discovered_starts_once(
    provider: bool,
    has_credentials: bool,
    started: bool,
    peers: Seq<(String, bool)>,
    local: Seq<char>,
)
    ensures
        ({
            let d = discovered_step(provider, has_credentials, started, peers, local);
            &&& started ==> d.0
            &&& (started || !d.0) ==> forall|i: int| 0 <= i < d.1.len() ==> !starts_proxy(#[trigger] d.1[i])
            &&& (provider || !has_credentials) ==> d.0 == started
            &&& forall|i: int, j: int|
                0 <= i < d.1.len() && 0 <= j < d.1.len() && starts_proxy(#[trigger] d.1[i]) && starts_proxy(#[trigger] d.1[j])
                    ==> i == j
            &&& forall|i: int| 0 <= i < d.1.len() && #[trigger] starts_proxy(d.1[i]) ==> d.1[i]->StartProxy_0@ != local
        }),
    decreases peers.len(),
{
    if peers.len() > 0 {
        lemma_discovered_starts_once(provider, has_credentials, started, peers.drop_last(), local);
        let prev = discovered_step(provider, has_credentials, started, peers.drop_last(), local);
        let d = discovered_step(provider, has_credentials, started, peers, local);
        let peer = peers.last().0;
        if peer@ != local {
            let dial: Seq<NodeAction> = if peers.last().1 {
                Seq::empty()
            } else {
                seq![NodeAction::Dial(peer)]
            };
            assert forall|i: int| prev.1.len() <= i < prev.1.len() + dial.len() implies !starts_proxy(#[trigger] (prev.1 + dial)[i]) by {
                assert((prev.1 + dial)[i] == dial[i - prev.1.len()]);
            }
            if !provider && !prev.0 && has_credentials {
                let all = prev.1 + dial + seq![NodeAction::StartProxy(peer)];
                assert(d.1 == all);
                assert forall|i: int| 0 <= i < all.len() - 1 implies !starts_proxy(#[trigger] all[i]) by {
                    assert(all[i] == (prev.1 + dial)[i]);
                    if i < prev.1.len() {
                        assert((prev.1 + dial)[i] == prev.1[i]);
                    }
                }
            } else {
                assert(d.1 == prev.1 + dial);
                assert forall|i: int| 0 <= i < prev.1.len() implies (prev.1 + dial)[i] == prev.1[i] by {}
            }
        }
    }
}

/// The local proxy is started at most once, by a client that holds
/// credentials, towards a peer other than itself: a step of a node whose proxy
/// is started starts none and leaves it started, and a step that starts it
/// starts it once, from a client state with credentials and no proxy.
pub proof fn lemma_proxy_started_once(s: NodeLoopState, e: NodeEvent)
    ensures
        ({
            let (next, actions) = node_step_spec(s, e);
            &&& s.proxy_started ==> next.proxy_started
            &&& s.proxy_started ==> forall|i: int| 0 <= i < actions.len() ==> !starts_proxy(#[trigger] actions[i])
            &&& forall|i: int| 0 <= i < actions.len() && #[trigger] starts_proxy(actions[i]) ==> !s.provider
                && s.has_credentials && !s.proxy_started && next.proxy_started
            &&& forall|i: int, j: int|
                0 <= i < actions.len() && 0 <= j < actions.len() && starts_proxy(#[trigger] actions[i]) && starts_proxy(
                    #[trigger] actions[j],
                ) ==> i == j
            &&& e matches NodeEvent::Discovered { local, .. } ==> forall|i: int|
                0 <= i < actions.len() && #[trigger] starts_proxy(actions[i]) ==> actions[i]->StartProxy_0@ != local@
        }),
{
    match e {
        NodeEvent::Discovered { peers, local } => {
            lemma_discovered_starts_once(s.provider, s.has_credentials, s.proxy_started, peers@, local@);
        },
        _ => {},
    }
}

/// When the relay connection is lost (closed, ping timeout, failed dial), the
/// node is no longer registered, holds no credentials and has no dial under
/// way, so the retry timer redials the relay.
pub proof fn lemma_relay_loss_leads_to_redial(s: NodeLoopState, e: NodeEvent)
    requires
        e is RelayClosed || e is RelayPingTimeout || (e matches NodeEvent::DialError { relay, .. } && relay),
    ensures
        ({
            let next = node_step_spec(s, e).0;
            &&& !next.registered && !next.has_credentials && !next.relay_dial_in_flight
            &&& node_step_spec(next, NodeEvent::RelayRetryTick { connected: false }).1 == seq![NodeAction::RedialRelay]
        }),
{
}

/// A registered client that holds no credentials asks the relay for them on
/// every discovery tick (so a failed first request is retried), besides
/// discovering again; a provider, or a client with credentials, does not ask.
pub proof fn lemma_discover_tick_requests_missing_credentials(s: NodeLoopState)
    requires
        s.registered,
    ensures
        node_step_spec(s, NodeEvent::DiscoverTick).1.contains(NodeAction::Discover),
        !s.provider && !s.has_credentials ==> node_step_spec(s, NodeEvent::DiscoverTick).1.contains(
            NodeAction::RequestCredentials,
        ),
        (s.provider || s.has_credentials) ==> !node_step_spec(s, NodeEvent::DiscoverTick).1.contains(
            NodeAction::RequestCredentials,
        ),
        node_step_spec(s, NodeEvent::DiscoverTick).0 == s,
{
    let a = node_step_spec(s, NodeEvent::DiscoverTick).1;
    assert(a[0] == NodeAction::Discover);
    if !s.provider && !s.has_credentials {
        assert(a[1] == NodeAction::RequestCredentials);
    }
}

} // verus!
