# nexlink_lib

The library of NexLink, a peer-to-peer proxy network: client nodes reach the
internet through provider nodes, over libp2p streams relayed by a rendezvous
server. Its logic is written in Verus and proved against its contracts.

## Layout

- `src/` — the verified library.
  - `proxy_protocol.rs`: the SOCKS5 handshake as a state machine, HTTP CONNECT
    parsing, and the credential and destination lines between client and
    provider.
  - `traffic.rs`, `peer_traffic.rs`: byte and connection counters, per-peer
    quotas, and snapshots sorted by traffic.
  - `cache.rs`, `ai_proxy.rs`, `coordinator.rs`, `ai_server.rs`: the AI request
    proxy — a TTL cache with oldest-first eviction, endpoint routing by
    strategy, and the request steps around the backend call.
  - `crypto.rs`, `session.rs`, `privacy.rs`, `threat.rs`: session keys and
    encryption, secure sessions, IP masking and header filtering, threat levels.
  - `identity.rs`, `network_id.rs`: node identities and network ids derived with
    HKDF-SHA256.
  - `sys_proxy.rs`: plans for setting the operating system's proxy.
  - `node_loop.rs`: the node program's event loop as a step function from
    state and event to next state and actions (credentials, registration,
    discovery, the local proxy, relay redials); `app/node.rs` runs it.
  - `node_logic.rs`, `history.rs`, `traffic_sync.rs`, `agent.rs`: decisions of
    the node programs, bounded histories, traffic aggregation.
  - `table.rs`, `text.rs`, `kdf.rs`, `random.rs`, `clock.rs`: an insertion-ordered
    table keyed by strings, text helpers, and the calls into outside crates.
- `app/` — ordinary Rust around the library: sockets and relaying, libp2p
  swarms and behaviours, the axum HTTP interface, files, system commands, and
  the floating-point scoring of nodes.
- `tests/` — tests of the library through its public interface.

Laws of the library (what one call undoes, what every operation keeps) are
public proof functions next to the functions they speak of, named `lemma_*`.
