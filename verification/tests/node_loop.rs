use nexlink_lib::node_loop::{initial_node_state, node_step, NodeAction, NodeEvent, NodeLoopState};

fn step(s: &mut NodeLoopState, e: NodeEvent) -> Vec<NodeAction> {
    let (next, actions) = node_step(s, e);
    *s = next;
    actions
}

#[test]
fn client_gets_credentials_discovers_and_starts_proxy_once() {
    let mut s = initial_node_state(false);
    assert_eq!(step(&mut s, NodeEvent::RelayConnected), vec![NodeAction::RequestCredentials]);
    assert!(!s.relay_dial_in_flight);
    assert_eq!(step(&mut s, NodeEvent::RelayIdentified), vec![NodeAction::Discover]);
    assert!(s.registered);
    // Without credentials the proxy is not started.
    let peers = vec![("me".to_string(), false), ("p1".to_string(), false)];
    assert_eq!(
        step(&mut s, NodeEvent::Discovered { peers: peers.clone(), local: "me".to_string() }),
        vec![NodeAction::Dial("p1".to_string())]
    );
    assert!(!s.proxy_started);
    assert!(step(&mut s, NodeEvent::CredentialsReceived).is_empty());
    let peers = vec![("me".to_string(), false), ("p1".to_string(), true), ("p2".to_string(), false)];
    assert_eq!(
        step(&mut s, NodeEvent::Discovered { peers: peers.clone(), local: "me".to_string() }),
        vec![NodeAction::StartProxy("p1".to_string()), NodeAction::Dial("p2".to_string())]
    );
    assert!(s.proxy_started);
    assert_eq!(
        step(&mut s, NodeEvent::Discovered { peers, local: "me".to_string() }),
        vec![NodeAction::Dial("p2".to_string())]
    );
    assert_eq!(step(&mut s, NodeEvent::DiscoverTick), vec![NodeAction::Discover]);
}

#[test]
fn provider_registers_and_syncs_credentials() {
    let mut s = initial_node_state(true);
    assert!(step(&mut s, NodeEvent::RelayConnected).is_empty());
    assert_eq!(step(&mut s, NodeEvent::RelayIdentified), vec![NodeAction::Register]);
    assert!(!s.registered);
    assert_eq!(step(&mut s, NodeEvent::Registered), vec![NodeAction::SyncCredentials, NodeAction::Discover]);
    assert!(step(&mut s, NodeEvent::RelayIdentified).is_empty());
    assert_eq!(step(&mut s, NodeEvent::DiscoverTick), vec![NodeAction::Discover, NodeAction::SyncCredentials]);
    let peers = vec![("c1".to_string(), false)];
    assert_eq!(
        step(&mut s, NodeEvent::Discovered { peers, local: "me".to_string() }),
        vec![NodeAction::Dial("c1".to_string())]
    );
    assert!(!s.proxy_started);
}

#[test]
fn relay_loss_and_redial() {
    let mut s = initial_node_state(false);
    step(&mut s, NodeEvent::RelayConnected);
    step(&mut s, NodeEvent::RelayIdentified);
    step(&mut s, NodeEvent::CredentialsReceived);
    assert_eq!(step(&mut s, NodeEvent::RelayPingTimeout), vec![NodeAction::CloseRelayConnection]);
    assert!(!s.registered && !s.has_credentials && !s.relay_dial_in_flight);
    assert!(step(&mut s, NodeEvent::DiscoverTick).is_empty());
    assert!(step(&mut s, NodeEvent::RelayRetryTick { connected: true }).is_empty());
    assert_eq!(step(&mut s, NodeEvent::RelayRetryTick { connected: false }), vec![NodeAction::RedialRelay]);
    assert!(s.relay_dial_in_flight);
    assert!(step(&mut s, NodeEvent::RelayRetryTick { connected: false }).is_empty());
    assert!(step(&mut s, NodeEvent::RelayDialFailed).is_empty());
    assert!(!s.relay_dial_in_flight);
    assert!(step(&mut s, NodeEvent::RelayClosed).is_empty());
}

#[test]
fn failed_dials_retry_through_the_circuit() {
    let mut s = initial_node_state(false);
    assert_eq!(
        step(&mut s, NodeEvent::DialError { peer: "p".to_string(), relay: false, circuit: false }),
        vec![NodeAction::DialViaCircuit("p".to_string())]
    );
    assert!(step(&mut s, NodeEvent::DialError { peer: "p".to_string(), relay: false, circuit: true }).is_empty());
    s.registered = true;
    assert!(step(&mut s, NodeEvent::DialError { peer: "relay".to_string(), relay: true, circuit: false }).is_empty());
    assert!(!s.registered);
}
