use nexlink_lib::ai_proxy::AiServiceEndpoint;
use nexlink_lib::coordinator::{assess_health, AiAgentCoordinator, AiCoordinatorConfig, AiRequestStep, HealthStatus};

fn json(text: &str) -> serde_json::Value {
    serde_json::from_str(text).unwrap()
}

#[test]
fn test_coordinator_creation() {
    let config = AiCoordinatorConfig::default();
    let coordinator = AiAgentCoordinator::new(config);

    assert_eq!(coordinator.response_cache.stats().size, 0);
}

#[test]
fn test_process_ai_request() {
    let config = AiCoordinatorConfig { enable_intelligent_routing: true, ..Default::default() };
    let mut coordinator = AiAgentCoordinator::new(config);

    let endpoint = AiServiceEndpoint::new(
        "test-endpoint".to_string(),
        "http://test.com".to_string(),
        vec!["gpt-4".to_string()],
    );
    coordinator.register_ai_endpoint(endpoint).unwrap();

    let step = coordinator.begin_ai_request("gpt-4", "test-hash").unwrap();
    let endpoint_id = match step {
        AiRequestStep::Route(id) => id,
        AiRequestStep::Cached(_) | AiRequestStep::Direct => panic!("an endpoint is registered and nothing is cached yet"),
    };
    assert_eq!(endpoint_id, "test-endpoint");
    let current = coordinator.ai_proxy.endpoint("test-endpoint").unwrap();
    let (rt, cap) = (current.response_time_avg_bits, current.capacity_score_bits);
    let result = coordinator.finish_ai_request("gpt-4", "test-hash", &endpoint_id, Ok(json(r#"{"response": "test"}"#)), rt, cap);

    assert!(result.is_ok());
    let request_counter = coordinator.ai_proxy.request_count();
    assert_eq!(request_counter, 1);
}

#[test]
fn coordinator_test_health_check() {
    let config = AiCoordinatorConfig::default();
    let coordinator = AiAgentCoordinator::new(config);

    let health = coordinator.health_check();
    assert!(health.status.is_healthy());
}

#[test]
fn cached_response_answers_second_request() {
    let mut coordinator = AiAgentCoordinator::new(AiCoordinatorConfig::default());
    coordinator.initialize_with_defaults().unwrap();
    let step = coordinator.begin_ai_request("anthropic-3", "h1").unwrap();
    let id = match step {
        AiRequestStep::Route(id) => id,
        AiRequestStep::Cached(_) | AiRequestStep::Direct => panic!("an endpoint is registered and nothing is cached yet"),
    };
    assert_eq!(id, "anthropic-default");
    let reply = json(r#"{"answer": 42}"#);
    coordinator.finish_ai_request("anthropic-3", "h1", &id, Ok(reply.clone()), 0, 0).unwrap();
    match coordinator.begin_ai_request("anthropic-3", "h1").unwrap() {
        AiRequestStep::Cached(v) => assert_eq!(v, reply),
        AiRequestStep::Route(_) | AiRequestStep::Direct => panic!("the response is cached"),
    }
    assert_eq!(coordinator.ai_proxy.request_count(), 2);
    assert!(coordinator.begin_ai_request("unknown-model", "h2").is_err());
}

#[test]
fn failed_request_releases_load_and_is_not_cached() {
    let mut coordinator = AiAgentCoordinator::new(AiCoordinatorConfig::default());
    coordinator.initialize_with_defaults().unwrap();
    let id = match coordinator.begin_ai_request("gpt-4", "h").unwrap() {
        AiRequestStep::Route(id) => id,
        AiRequestStep::Cached(_) | AiRequestStep::Direct => panic!("an endpoint is registered and nothing is cached yet"),
    };
    assert_eq!(coordinator.ai_proxy.endpoint(&id).unwrap().current_load, 1);
    let r = coordinator.finish_ai_request("gpt-4", "h", &id, Err("backend down".to_string()), 7, 9);
    assert_eq!(r, Err("backend down".to_string()));
    let e = coordinator.ai_proxy.endpoint(&id).unwrap();
    assert_eq!((e.current_load, e.response_time_avg_bits, e.capacity_score_bits), (0, 7, 9));
    assert_eq!(coordinator.response_cache.len(), 0);
}

#[test]
fn health_degrades_on_low_hit_rate_or_unhealthy_endpoint() {
    assert_eq!(assess_health(0, 0, 0), HealthStatus::Healthy);
    assert_eq!(assess_health(3, 7, 0), HealthStatus::Healthy);
    assert_eq!(assess_health(2, 8, 0), HealthStatus::Degraded);
    assert_eq!(assess_health(10, 0, 1), HealthStatus::Degraded);
    assert!(HealthStatus::Degraded.is_degraded());
    assert!(HealthStatus::Unhealthy.is_unhealthy());
    assert!(!HealthStatus::Healthy.is_unhealthy());

    let mut coordinator = AiAgentCoordinator::new(AiCoordinatorConfig::default());
    let mut sick = AiServiceEndpoint::new("sick".to_string(), "http://x".to_string(), vec!["m".to_string()]);
    sick.is_healthy = false;
    coordinator.register_ai_endpoint(sick).unwrap();
    let health = coordinator.health_check();
    assert_eq!(health.status, HealthStatus::Degraded);
    assert_eq!(health.unhealthy_endpoints, vec!["sick".to_string()]);
    assert_eq!(health.active_endpoints, 1);
}

#[test]
fn request_without_endpoints_goes_to_the_backend_directly() {
    let mut coordinator = AiAgentCoordinator::new(AiCoordinatorConfig::default());
    match coordinator.begin_ai_request("gpt-4", "hello").unwrap() {
        AiRequestStep::Direct => {}
        _ => panic!("no endpoint is registered and nothing is cached"),
    }
    let reply = json(r#"{"response": "test"}"#);
    assert_eq!(coordinator.finish_direct_ai_request("gpt-4", "hello", Ok(reply.clone())), Ok(reply.clone()));
    match coordinator.begin_ai_request_at("gpt-4", "hello", 0).unwrap() {
        AiRequestStep::Cached(v) => assert_eq!(v, reply),
        _ => panic!("the response is cached"),
    }
    assert_eq!(coordinator.ai_proxy.request_count(), 2);
}
