pub mod agent;
pub mod ai_proxy;
pub mod ai_server;
pub mod cache;
pub mod clock;
pub mod coordinator;
pub mod crypto;
pub mod history;
pub mod identity;
pub mod kdf;
pub mod network_id;
pub mod node_logic;
pub mod node_loop;
pub mod peer_traffic;
pub mod privacy;
pub mod proxy_protocol;
pub mod random;
pub mod session;
pub mod sys_proxy;
pub mod table;
pub mod text;
pub mod threat;
pub mod traffic;
pub mod traffic_sync;
