use nexlink_lib::proxy_protocol::{
    auth_line, detect_client_protocol, headers_complete, parse_connect_request, provider_check_credentials,
    provider_check_password, provider_first_line, provider_target_line, request_line_complete, socks5_bytes_awaited,
    socks5_command_not_supported_reply, socks5_method_reply, socks5_step, socks5_success_reply, socks5_target_text,
    target_line, ClientProtocol, HttpConnectError, ProviderDecision, ProxyStreamError, Socks5Action, Socks5Error,
    Socks5State, Socks5Target,
};
use nexlink_lib::table::KeyedTable;

fn run_socks5(mut state: Socks5State, bytes: &[u8]) -> (Socks5State, Vec<String>, Option<Socks5Target>) {
    let mut pos = 0;
    let mut log = Vec::new();
    loop {
        let n = socks5_bytes_awaited(state);
        let (next, action) = socks5_step(state, &bytes[pos..pos + n]);
        pos += n;
        state = next;
        match action {
            Socks5Action::Continue => log.push("continue".to_string()),
            Socks5Action::AcceptMethods => log.push("accept".to_string()),
            Socks5Action::Connect(t) => return (state, log, Some(t)),
            Socks5Action::Fail(e, reply) => {
                log.push(format!("fail {:?} {}", e, reply));
                return (state, log, None);
            },
        }
    }
}

#[test]
fn test_protocol_detection() {
    assert_eq!(detect_client_protocol(0x05), ClientProtocol::Socks5);
    assert_eq!(detect_client_protocol(b'C'), ClientProtocol::HttpConnect);
}

#[test]
fn test_unified_proxy_handles_socks5() {
    let bytes = [0x05, 0x01, 0x00, 0x05, 0x01, 0x00, 0x01, 93, 184, 216, 34, 0x01, 0xBB];
    let (state, log, target) = run_socks5(Socks5State::Greeting, &bytes);
    assert_eq!(state, Socks5State::Done);
    assert_eq!(log, vec!["continue", "accept", "continue"]);
    let target = target.unwrap();
    assert_eq!(socks5_target_text(&target), Some("93.184.216.34:443".to_string()));
}

#[test]
fn test_unified_proxy_handles_http_connect() {
    let line = b"CONNECT example.com:443 HTTP/1.1\r\n";
    assert!(request_line_complete(line));
    assert!(!request_line_complete(b"CONNECT example.com:443 HTTP/1.1\r"));
    assert_eq!(parse_connect_request(line), Ok("example.com:443".to_string()));
    assert!(headers_complete(b"Host: example.com\r\n\r\n"));
    assert!(!headers_complete(b"Host: example.com\r\n"));
}

#[test]
fn socks5_domain_target_after_unified_first_byte() {
    let mut bytes = vec![0x00, 0x05, 0x01, 0x00, 0x03, 11];
    bytes.extend_from_slice(b"example.com");
    bytes.extend_from_slice(&[0x00, 0x50]);
    let (_, log, target) = run_socks5(Socks5State::MethodCount, &bytes);
    assert_eq!(log, vec!["accept", "continue", "continue"]);
    assert_eq!(socks5_target_text(&target.unwrap()), Some("example.com:80".to_string()));
}

#[test]
fn socks5_failures() {
    let (_, log, _) = run_socks5(Socks5State::Greeting, &[0x04, 0x01]);
    assert_eq!(log, vec![format!("fail {:?} false", Socks5Error::NotSocks5)]);
    let (_, log, _) = run_socks5(Socks5State::Greeting, &[0x05, 0x01, 0x00, 0x05, 0x02, 0x00, 0x01]);
    assert_eq!(log.last().unwrap(), &format!("fail {:?} true", Socks5Error::UnsupportedCommand(2)));
    let (_, log, _) = run_socks5(Socks5State::Greeting, &[0x05, 0x00, 0x05, 0x01, 0x00, 0x09]);
    assert_eq!(log.last().unwrap(), &format!("fail {:?} false", Socks5Error::UnknownAddressType(9)));
    let mut v6 = vec![0x05, 0x00, 0x05, 0x01, 0x00, 0x04];
    v6.extend_from_slice(&[0u8; 15]);
    v6.extend_from_slice(&[1, 0x1F, 0x90]);
    let (_, _, target) = run_socks5(Socks5State::Greeting, &v6);
    match target.unwrap() {
        Socks5Target::Ipv6 { addr, port } => {
            assert_eq!(addr[15], 1);
            assert_eq!(port, 8080);
        },
        _ => panic!("expected an IPv6 target"),
    }
}

#[test]
fn socks5_replies() {
    assert_eq!(socks5_method_reply(), vec![5, 0]);
    assert_eq!(socks5_command_not_supported_reply(), vec![5, 7, 0, 1, 0, 0, 0, 0, 0, 0]);
    assert_eq!(socks5_success_reply(), vec![5, 0, 0, 1, 0, 0, 0, 0, 0, 0]);
}

#[test]
fn bad_http_requests_are_refused() {
    assert_eq!(parse_connect_request(b"GET / HTTP/1.1\r\n"), Err(HttpConnectError::BadRequest));
    assert_eq!(parse_connect_request(b"CONNECT host:1\r\n"), Err(HttpConnectError::BadRequest));
}

#[test]
fn client_lines_are_read_back_by_provider() {
    let auth = auth_line("alice", "s3cret pass");
    assert_eq!(auth, "AUTH alice s3cret pass\n");
    match provider_first_line(&auth, true) {
        ProviderDecision::CheckCredentials { username, password } => {
            assert_eq!(username, "alice");
            assert_eq!(password, "s3cret pass");
        },
        other => panic!("unexpected decision {:?}", other),
    }
    assert!(matches!(provider_first_line(&auth, false), ProviderDecision::ReadTargetLine));
    let line = target_line("example.com:443");
    assert_eq!(provider_target_line(&line), Ok("example.com:443".to_string()));
}

#[test]
fn provider_refusals() {
    assert!(matches!(provider_first_line("example.com:443\n", true), ProviderDecision::Reject(ProxyStreamError::MissingAuth)));
    assert!(matches!(provider_first_line("AUTH alice\n", true), ProviderDecision::Reject(ProxyStreamError::MalformedAuth)));
    assert!(matches!(provider_first_line("AUTH alice\n", false), ProviderDecision::ReadTargetLine));
    assert!(matches!(provider_first_line("  \n", false), ProviderDecision::Reject(ProxyStreamError::EmptyTarget)));
    match provider_first_line(" example.com:80 \n", false) {
        ProviderDecision::Target(t) => assert_eq!(t, "example.com:80"),
        other => panic!("unexpected decision {:?}", other),
    }
    assert_eq!(provider_target_line("\n"), Err(ProxyStreamError::EmptyTarget));
}

#[test]
fn provider_checks_credentials() {
    let mut allowed = KeyedTable::new();
    allowed.insert("alice".to_string(), "pw".to_string());
    assert_eq!(provider_check_credentials(&"alice".to_string(), &"pw".to_string(), &allowed), Ok(()));
    assert_eq!(provider_check_credentials(&"alice".to_string(), &"bad".to_string(), &allowed), Err(ProxyStreamError::AuthFailed));
    assert_eq!(provider_check_credentials(&"bob".to_string(), &"pw".to_string(), &allowed), Err(ProxyStreamError::AuthFailed));
    assert_eq!(provider_check_password(&"x".to_string(), None), Err(ProxyStreamError::AuthFailed));
}
