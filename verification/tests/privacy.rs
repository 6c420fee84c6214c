use std::hash::{Hash, Hasher};
use nexlink_lib::privacy::{
    anonymous_host_name, is_sensitive_header, looks_like_ip_address, mask_ip_addresses, PrivacyConfig, PrivacyLevel, PrivacyProcessor, ProxyMode,
    RequestContext,
};

#[test]
fn test_privacy_processor_basic() {
    let config = PrivacyConfig::default();
    let mut processor = PrivacyProcessor::new(config);

    let test_data = b"Hello, this is a test with 192.168.1.1 IP address";
    let context = RequestContext::default();

    let processed_data = processor.process_data(test_data, &context);
    assert!(processed_data.len() >= test_data.len());

    let stats = processor.get_stats();
    assert_eq!(stats.requests_processed, 1);
    assert!(stats.bytes_processed > 0);
}

#[test]
fn test_hostname_anonymization() {
    let config = PrivacyConfig::default();
    let mut processor = PrivacyProcessor::new(config);

    let original_host = "example.com";
    let anon_host = processor.anonymize_hostname(original_host);

    assert!(anon_host.starts_with("anon-"));
    assert!(anon_host.contains(".nexlink"));
    assert_ne!(anon_host, original_host);
}

#[test]
fn test_request_context_processing() {
    let config = PrivacyConfig { level: PrivacyLevel::High, ..Default::default() };
    let mut processor = PrivacyProcessor::new(config);

    let mut context = RequestContext::default();
    context.hostname = Some("example.com".to_string());
    context.headers.insert("authorization".to_string(), "Bearer token123".to_string());
    context.headers.insert("user-agent".to_string(), "Mozilla/5.0".to_string());
    context.headers.insert("custom-header".to_string(), "value".to_string());

    let processed_context = processor.process_request_context(context);

    assert!(!processed_context.headers.contains_key(&"authorization".to_string()));
    assert!(!processed_context.headers.contains_key(&"user-agent".to_string()));

    assert!(processed_context.headers.contains_key(&"custom-header".to_string()));

    assert!(processed_context.headers.contains_key(&"Sec-CH-UA".to_string()));
}

#[test]
fn test_privacy_levels() {
    let config = PrivacyConfig::default();
    let mut processor = PrivacyProcessor::new(config);

    for level in [PrivacyLevel::Low, PrivacyLevel::Medium, PrivacyLevel::High, PrivacyLevel::Ultra] {
        let mut config = processor.get_config();
        config.level = level;
        processor.update_config(config);

        let test_data = b"Test data";
        let context = RequestContext::default();
        let _processed = processor.process_data(test_data, &context);

        let current_config = processor.get_config();
        assert_eq!(current_config.level, level);
    }
}

#[test]
fn ip_addresses_are_masked() {
    let masked = mask_ip_addresses(b"Hello, this is a test with 10.0.0.7 IP address");
    assert_eq!(masked, b"Hello, this is a test with 192.168.0.1 IP address".to_vec());
    assert_eq!(mask_ip_addresses(b"at 8.8.8.8:53 now"), b"at 8.8.8.8:53 now".to_vec());
    assert_eq!(mask_ip_addresses(b"v1.2 and 1.2.3 and 1.2.3.4"), b"v1.2 and 1.2.3 and 192.168.0.1".to_vec());
    assert!(looks_like_ip_address("127.0.0.1"));
    assert!(!looks_like_ip_address("1.2.3"));
    assert!(!looks_like_ip_address("1.2.3.4:80"));
}

#[test]
fn low_level_masks_only() {
    let config = PrivacyConfig { level: PrivacyLevel::Low, ..Default::default() };
    let mut processor = PrivacyProcessor::new(config);
    let out = processor.process_data(b"ping 1.1.1.1", &RequestContext::default());
    assert_eq!(out, b"ping 192.168.0.1".to_vec());
    assert_eq!(processor.get_stats().bytes_processed, 16);
    let no_mask = PrivacyConfig { level: PrivacyLevel::Low, ip_masking: false, ..Default::default() };
    let mut processor = PrivacyProcessor::new(no_mask);
    assert_eq!(processor.process_data(b"ping 1.1.1.1", &RequestContext::default()), b"ping 1.1.1.1".to_vec());
}

#[test]
fn medium_level_prepends_padding() {
    let mut processor = PrivacyProcessor::new(PrivacyConfig::default());
    let data = b"payload without addresses";
    let out = processor.process_data(data, &RequestContext::default());
    let pad = out.len() - data.len();
    assert!((10..=500).contains(&pad));
    assert_eq!(&out[pad..], &data[..]);
}

#[test]
fn high_level_obfuscates_long_data() {
    let config = PrivacyConfig { level: PrivacyLevel::Ultra, use_padding: false, ..Default::default() };
    let mut processor = PrivacyProcessor::new(config);
    let data = vec![b'x'; 200];
    let out = processor.process_data(&data, &RequestContext::default());
    assert_eq!(out.len(), 216);
    let short = processor.process_data(&vec![b'y'; 50], &RequestContext::default());
    assert_eq!(short, vec![b'y'; 50]);
}

#[test]
fn onion_names_and_cache() {
    let mut processor = PrivacyProcessor::new(PrivacyConfig::default());
    assert_eq!(processor.anonymize_hostname("hidden.onion"), "hidden.onion");
    let first = processor.anonymize_hostname("example.org");
    let second = processor.anonymize_hostname("example.org");
    assert_eq!(first, second);
    assert_eq!(processor.get_stats().anonymized_hosts, 2);
    processor.reset_stats();
    assert_eq!(processor.get_stats().anonymized_hosts, 0);
}

#[test]
fn sensitive_headers_ignore_case() {
    assert!(is_sensitive_header("Authorization"));
    assert!(is_sensitive_header("X-Forwarded-For"));
    assert!(!is_sensitive_header("Accept"));
}

#[test]
fn medium_level_keeps_headers_without_adding() {
    let mut processor = PrivacyProcessor::new(PrivacyConfig::default());
    let mut context = RequestContext::default();
    context.headers.insert("Cookie".to_string(), "a=b".to_string());
    context.headers.insert("Accept".to_string(), "*/*".to_string());
    let out = processor.process_request_context(context);
    assert!(!out.headers.contains_key(&"Cookie".to_string()));
    assert!(out.headers.contains_key(&"Accept".to_string()));
    assert!(!out.headers.contains_key(&"Sec-CH-UA".to_string()));
    assert_eq!(out.hostname, None);
}

#[test]
fn proxy_mode_can_be_changed() {
    let mut processor = PrivacyProcessor::new(PrivacyConfig::default());
    assert_eq!(processor.get_proxy_mode(), ProxyMode::Anonymous);
    processor.set_proxy_mode(ProxyMode::Obfuscated);
    assert_eq!(processor.get_proxy_mode(), ProxyMode::Obfuscated);
    assert!(PrivacyLevel::Ultra.at_least(&PrivacyLevel::High));
    assert!(!PrivacyLevel::Low.at_least(&PrivacyLevel::Medium));
}

#[test]
fn anonymous_names_are_hex_of_the_default_hash() {
    assert_eq!(anonymous_host_name(0), "anon-0.nexlink");
    assert_eq!(anonymous_host_name(0x1a2b), "anon-1a2b.nexlink");
    let mut hasher = std::collections::hash_map::DefaultHasher::new();
    "example.org".hash(&mut hasher);
    let expected = format!("anon-{:x}.nexlink", hasher.finish());
    let mut processor = PrivacyProcessor::new(PrivacyConfig::default());
    assert_eq!(processor.anonymize_hostname("example.org"), expected);
}
