use nexlink_lib::sys_proxy::{
    clear_system_proxy, get_system_proxy, has_service_line, proxy_query_command, select_network_service, set_system_proxy,
    ProxyGuard, ProxyQueryReply, ProxyStep, ProxyTarget,
};

fn command(step: &ProxyStep) -> (bool, String, Vec<String>) {
    match step {
        ProxyStep::Run { program, args } => (true, program.clone(), args.clone()),
        ProxyStep::TryRun { program, args } => (false, program.clone(), args.clone()),
        other => panic!("not a command: {:?}", other),
    }
}

#[test]
fn proxy_guard_tracks_activation() {
    let mut g = ProxyGuard::new();
    assert!(!g.is_active());
    g.activate();
    assert!(g.is_active());
    g.deactivate();
    assert!(!g.is_active());
}

#[test]
fn linux_proxy_steps() {
    let steps = set_system_proxy(&ProxyTarget::Linux, 7890, 7891);
    assert_eq!(steps.len(), 7);
    let (required, program, args) = command(&steps[2]);
    assert!(!required);
    assert_eq!(program, "gsettings");
    assert_eq!(args, vec!["set", "org.gnome.system.proxy.http", "port", "7890"]);
    let (_, _, args) = command(&steps[0]);
    assert_eq!(args, vec!["set", "org.gnome.system.proxy", "mode", "manual"]);
    let clear = clear_system_proxy(&ProxyTarget::Linux);
    let (_, _, args) = command(&clear[0]);
    assert_eq!(args, vec!["set", "org.gnome.system.proxy", "mode", "none"]);
}

#[test]
fn macos_proxy_steps() {
    let target = ProxyTarget::MacOs { interface: "Wi-Fi".to_string() };
    let steps = set_system_proxy(&target, 1080, 0);
    assert_eq!(steps.len(), 6);
    let (required, program, args) = command(&steps[4]);
    assert!(required);
    assert_eq!(program, "networksetup");
    assert_eq!(args, vec!["-setsocksfirewallproxy", "Wi-Fi", "127.0.0.1", "1080"]);
    let clear = clear_system_proxy(&target);
    let (_, _, args) = command(&clear[1]);
    assert_eq!(args, vec!["-setsecurewebproxystate", "Wi-Fi", "off"]);
    let (_, _, args) = command(&proxy_query_command(&target).unwrap());
    assert_eq!(args, vec!["-getwebproxy", "Wi-Fi"]);
}

#[test]
fn windows_proxy_steps() {
    let steps = set_system_proxy(&ProxyTarget::Windows, 8080, 0);
    assert_eq!(steps.len(), 3);
    match &steps[1] {
        ProxyStep::SetRegistryString { name, value } => {
            assert_eq!(name, "ProxyServer");
            assert_eq!(value, "127.0.0.1:8080");
        },
        other => panic!("unexpected step {:?}", other),
    }
    assert!(matches!(&clear_system_proxy(&ProxyTarget::Windows)[0], ProxyStep::SetRegistryDword { value: 0, .. }));
    assert!(proxy_query_command(&ProxyTarget::Windows).is_none());
}

#[test]
fn proxy_state_is_read_from_platform_output() {
    assert!(get_system_proxy(&ProxyQueryReply::Linux(Some(b"'manual'\n".to_vec()))).enabled);
    assert!(!get_system_proxy(&ProxyQueryReply::Linux(Some(b"'none'\n".to_vec()))).enabled);
    assert!(!get_system_proxy(&ProxyQueryReply::Linux(None)).enabled);
    assert!(get_system_proxy(&ProxyQueryReply::MacOs(b"Enabled: Yes\nServer: 127.0.0.1\n".to_vec())).enabled);
    assert!(!get_system_proxy(&ProxyQueryReply::MacOs(b"Enabled: No\n".to_vec())).enabled);
    assert!(get_system_proxy(&ProxyQueryReply::Windows(Some(1))).enabled);
    assert!(!get_system_proxy(&ProxyQueryReply::Windows(None)).enabled);
}

#[test]
fn network_service_is_chosen_by_preference() {
    let listing = b"An asterisk (*) denotes that a network service is disabled.\nEthernet\n  Wi-Fi  \nBluetooth PAN\n";
    assert_eq!(select_network_service(listing), Some("Wi-Fi".to_string()));
    assert_eq!(select_network_service(b"Thunderbolt Bridge\nEthernet"), Some("Ethernet".to_string()));
    assert_eq!(select_network_service(b"USB 10/100/1000 LAN\r\n"), Some("USB 10/100/1000 LAN".to_string()));
    assert_eq!(select_network_service(b"Wi-Fi 2\nBluetooth PAN\n"), None);
    assert!(has_service_line("a\nb", "b"));
    assert!(!has_service_line("ab", "b"));
}

#[test]
fn socks_port_does_not_change_the_plan() {
    for target in [ProxyTarget::Linux, ProxyTarget::Windows, ProxyTarget::MacOs { interface: "Wi-Fi".to_string() }] {
        let a = format!("{:?}", set_system_proxy(&target, 7890, 1080));
        let b = format!("{:?}", set_system_proxy(&target, 7890, 9999));
        assert_eq!(a, b);
        assert!(a.contains("7890"));
    }
}
