use nexlink_lib::ai_server::{endpoint_from_fields, request_hash, simulated_response, Message};
use nexlink_lib::history::{push_bounded, recent_first};
use nexlink_lib::node_logic::{
    is_ping_timeout, peers_needing_credentials, registration_wait_step, replace_allowed_credentials, FlushTracker,
    PingFailureKind, RegistrationWait,
};
use nexlink_lib::proxy_protocol::ProxyCredentials;
use nexlink_lib::table::KeyedTable;
use nexlink_lib::text::{decimal_string, hex_string, split_whitespace_words, trim_text};
use nexlink_lib::threat::{incident_cutoff, retain_recent_incidents, threat_level_code, threat_level_for_anomalies, SecurityIncident, ThreatLevel};
use nexlink_lib::traffic_sync::{aggregate_traffic_rows, capability_id, tmq_dsn, TrafficRow};

#[test]
fn test_threat_assessment() {
    assert_eq!(threat_level_for_anomalies(6), ThreatLevel::High);
    assert_eq!(threat_level_for_anomalies(0), ThreatLevel::Low);
    assert_eq!(threat_level_for_anomalies(3), ThreatLevel::Medium);
    assert_eq!(threat_level_for_anomalies(11), ThreatLevel::Critical);
    assert_eq!(threat_level_for_anomalies(10), ThreatLevel::High);
    assert_eq!(threat_level_code(ThreatLevel::Critical), 4);
    assert_eq!(threat_level_code(ThreatLevel::Low), 1);
}

#[test]
fn old_incidents_are_dropped() {
    let incident = |t: u64| SecurityIncident {
        timestamp: t,
        incident_type: "TestIncident".to_string(),
        severity: ThreatLevel::Medium,
        description: "Test description".to_string(),
    };
    let mut v = vec![incident(5), incident(50), incident(100), incident(20)];
    retain_recent_incidents(&mut v, incident_cutoff(100, 60));
    let kept: Vec<u64> = v.iter().map(|i| i.timestamp).collect();
    assert_eq!(kept, vec![50, 100]);
    assert_eq!(incident_cutoff(10, 60), None);
    assert_eq!(incident_cutoff(10, u64::MAX), Some(10));
}

#[test]
fn bounded_history_drops_oldest() {
    let mut h: Vec<u32> = (0..100).collect();
    push_bounded(&mut h, 100, 100, 50);
    assert_eq!(h.len(), 51);
    assert_eq!(h[0], 50);
    assert_eq!(*h.last().unwrap(), 100);
    let mut small: Vec<u32> = vec![1, 2];
    push_bounded(&mut small, 3, 20, 1);
    assert_eq!(small, vec![1, 2, 3]);
    assert_eq!(recent_first(&h, 3), vec![100, 99, 98]);
    assert_eq!(recent_first(&small, 10), vec![3, 2, 1]);
}

#[test]
fn flush_deltas() {
    let mut t = FlushTracker::new();
    let p = "peer".to_string();
    assert_eq!(t.delta_for(&p, 100, 50, 0), Some((100, 50)));
    assert_eq!(t.delta_for(&p, 100, 50, 0), None);
    assert_eq!(t.delta_for(&p, 100, 50, 2), Some((0, 0)));
    assert_eq!(t.delta_for(&p, 40, 70, 0), Some((0, 20)));
}

#[test]
fn allowed_credentials_are_replaced() {
    let mut allowed = KeyedTable::new();
    allowed.insert("old".to_string(), "x".to_string());
    let creds = vec![
        ProxyCredentials { username: "u1".to_string(), password: "p1".to_string() },
        ProxyCredentials { username: "u2".to_string(), password: "p2".to_string() },
        ProxyCredentials { username: "u1".to_string(), password: "p3".to_string() },
    ];
    assert_eq!(replace_allowed_credentials(&mut allowed, &creds), 3);
    assert_eq!(allowed.len(), 2);
    assert_eq!(allowed.get(&"u1".to_string()), Some(&"p3".to_string()));
    assert!(!allowed.contains_key(&"old".to_string()));
}

#[test]
fn relay_decisions() {
    assert!(is_ping_timeout(PingFailureKind::Timeout));
    assert!(!is_ping_timeout(PingFailureKind::Unsupported));
    assert!(is_ping_timeout(PingFailureKind::Other { io_timed_out: true }));
    assert_eq!(registration_wait_step(0, true), RegistrationWait::Accept);
    assert_eq!(registration_wait_step(9, false), RegistrationWait::Sleep);
    assert_eq!(registration_wait_step(10, false), RegistrationWait::Reject);
    let connected = vec!["a".to_string(), "prov".to_string(), "b".to_string()];
    assert_eq!(peers_needing_credentials(&connected, &vec!["prov".to_string()]), vec!["a".to_string(), "b".to_string()]);
}

#[test]
fn consumer_dsn() {
    assert_eq!(tmq_dsn(" taos+ws://host:6041/db ", "g"), "taos://host:6041/db?group.id=g");
    assert_eq!(tmq_dsn("ws://h:1?x=1", "grp"), "taos://h:1?x=1&group.id=grp");
    assert_eq!(tmq_dsn("http://h", "g"), "taos://h?group.id=g");
    assert_eq!(tmq_dsn("taos://h", "g"), "taos://h?group.id=g");
    assert_eq!(capability_id("local-peer"), "cap:storage/traffic.sync:local-peer");
}

#[test]
fn traffic_rows_sum_per_block() {
    let row = |p: &str, u: i64, d: i64| TrafficRow { peer_id: p.to_string(), upload_bytes: u, download_bytes: d };
    let delta = aggregate_traffic_rows(&vec![row("", 1, 2), row("peer-x", 3, 4), row("peer-y", 5, -1)]).unwrap();
    assert_eq!(delta.peer_id, "peer-x");
    assert_eq!((delta.upload, delta.download), (9, 5));
    assert!(aggregate_traffic_rows(&vec![row("p", 0, 0)]).is_none());
    assert!(aggregate_traffic_rows(&vec![row("", 5, 5)]).is_none());
    assert!(aggregate_traffic_rows(&vec![]).is_none());
}

#[test]
fn request_hash_is_md5_of_debug_text() {
    let messages = vec![Message { role: "user".to_string(), content: "Hello!".to_string() }];
    assert_eq!(request_hash(&messages), "b32719d26628174133d5901a0b075391");
}

#[test]
fn simulated_backend_response() {
    let messages = vec![
        Message { role: "user".to_string(), content: "Hello!".to_string() },
        Message { role: "user".to_string(), content: "héllo".to_string() },
    ];
    let r = simulated_response(&"gpt-4".to_string(), &messages, 42);
    assert_eq!(r.id, "chatcmpl-42");
    assert_eq!(r.model, "gpt-4");
    assert_eq!(r.choices.len(), 1);
    assert_eq!(r.choices[0].message.role, "assistant");
    assert_eq!(r.choices[0].finish_reason, "stop");
    assert_eq!(r.usage.prompt_tokens, 12);
    assert_eq!(r.usage.completion_tokens, 10);
    assert_eq!(r.usage.total_tokens, 22);
}

#[test]
fn registration_needs_all_fields() {
    assert_eq!(
        endpoint_from_fields(String::new(), "u".to_string(), vec!["m".to_string()]).unwrap_err(),
        "Missing required fields"
    );
    assert!(endpoint_from_fields("i".to_string(), "u".to_string(), vec![]).is_err());
    let e = endpoint_from_fields("i".to_string(), "u".to_string(), vec!["m".to_string()]).unwrap();
    assert_eq!(e.id, "i");
    assert!(e.is_healthy);
}

#[test]
fn number_and_text_helpers() {
    assert_eq!(hex_string(255), "ff");
    assert_eq!(hex_string(0), "0");
    assert_eq!(decimal_string(1234567890), "1234567890");
    assert_eq!(trim_text("\t a b \n"), "a b");
}

#[test]
fn split_whitespace_matches_std() {
    let text = "  CONNECT  example.com:443 \t HTTP/1.1\r\n";
    let expected: Vec<String> = text.split_whitespace().map(|w| w.to_string()).collect();
    assert_eq!(split_whitespace_words(text), expected);
    assert_eq!(split_whitespace_words("a\u{3000}b\u{a0}c"), vec!["a", "b", "c"]);
    assert!(split_whitespace_words(" \n\t ").is_empty());
    assert!(split_whitespace_words("").is_empty());
}
