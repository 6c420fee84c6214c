use nexlink_lib::ai_proxy::{capacity_key, AiProxy, AiProxyConfig, AiServiceEndpoint, LoadBalancingStrategy};

fn endpoint(id: &str, models: &[&str]) -> AiServiceEndpoint {
    AiServiceEndpoint::new(id.to_string(), format!("http://{id}"), models.iter().map(|m| m.to_string()).collect())
}

fn proxy(strategy: LoadBalancingStrategy) -> AiProxy {
    AiProxy::new(AiProxyConfig { load_balancing_strategy: strategy, ..AiProxyConfig::default() })
}

#[test]
fn duplicate_and_missing_endpoints() {
    let mut p = proxy(LoadBalancingStrategy::RoundRobin);
    p.register_endpoint(endpoint("a", &["m"])).unwrap();
    assert_eq!(p.register_endpoint(endpoint("a", &["m"])), Err("Endpoint with id 'a' already exists".to_string()));
    assert_eq!(p.remove_endpoint("zz").unwrap_err(), "Endpoint with id 'zz' not found");
    assert_eq!(p.remove_endpoint("a").unwrap().id, "a");
    assert_eq!(p.endpoint_count(), 0);
    assert_eq!(p.get_best_endpoint(None), Err("No healthy endpoints available for requested model type".to_string()));
}

#[test]
fn round_robin_takes_turns_among_eligible() {
    let mut p = proxy(LoadBalancingStrategy::RoundRobin);
    p.register_endpoint(endpoint("a", &["gpt-4"])).unwrap();
    p.register_endpoint(endpoint("b", &["llama-2"])).unwrap();
    p.register_endpoint(endpoint("c", &["gpt-4"])).unwrap();
    assert_eq!(p.get_best_endpoint(Some("gpt-4")).unwrap(), "a");
    assert_eq!(p.get_best_endpoint(Some("gpt-4")).unwrap(), "c");
    assert_eq!(p.get_best_endpoint(None).unwrap(), "c");
    assert_eq!(p.endpoint("c").unwrap().current_load, 2);
}

#[test]
fn least_loaded_takes_first_minimum() {
    let mut p = proxy(LoadBalancingStrategy::LeastLoaded);
    p.register_endpoint(endpoint("a", &["m"])).unwrap();
    p.register_endpoint(endpoint("b", &["m"])).unwrap();
    assert_eq!(p.get_best_endpoint(Some("m")).unwrap(), "a");
    assert_eq!(p.get_best_endpoint(Some("m")).unwrap(), "b");
    assert_eq!(p.get_best_endpoint(Some("m")).unwrap(), "a");
}

#[test]
fn weighted_capacity_takes_last_maximum_and_skips_unhealthy() {
    let mut p = proxy(LoadBalancingStrategy::WeightedCapacity);
    let mut a = endpoint("a", &["m"]);
    a.capacity_score_bits = 0.9f64.to_bits();
    let mut b = endpoint("b", &["m"]);
    b.capacity_score_bits = 0.9f64.to_bits();
    let mut c = endpoint("c", &["m"]);
    c.capacity_score_bits = 0.95f64.to_bits();
    c.is_healthy = false;
    p.register_endpoint(a).unwrap();
    p.register_endpoint(b).unwrap();
    p.register_endpoint(c).unwrap();
    assert_eq!(p.get_best_endpoint(Some("m")).unwrap(), "b");
    assert_eq!(p.unhealthy_endpoint_ids(), vec!["c".to_string()]);
}

#[test]
fn load_is_capped_and_released() {
    let mut e = endpoint("a", &["m"]);
    e.max_concurrent_requests = 1;
    e.increment_load();
    e.increment_load();
    assert_eq!(e.current_load, 1);
    e.decrement_load();
    e.decrement_load();
    assert_eq!(e.current_load, 0);
    assert!(e.supports_model("m"));
    assert!(!e.supports_model("n"));
}

#[test]
fn metrics_update_stores_scores_and_releases_on_failure() {
    let mut p = proxy(LoadBalancingStrategy::LeastLoaded);
    p.register_endpoint(endpoint("a", &["m"])).unwrap();
    p.get_best_endpoint(None).unwrap();
    p.update_endpoint_metrics("a", 1, 2, true).unwrap();
    assert_eq!(p.endpoint("a").unwrap().current_load, 1);
    p.update_endpoint_metrics("a", 3, 4, false).unwrap();
    let e = p.endpoint("a").unwrap();
    assert_eq!((e.current_load, e.response_time_avg_bits, e.capacity_score_bits), (0, 3, 4));
    assert!(p.update_endpoint_metrics("zz", 0, 0, true).is_err());
    p.increment_request_counter();
    assert_eq!(p.request_count(), 1);
    assert_eq!(p.endpoints().len(), 1);
}

#[test]
fn initial_metric_bits_are_the_documented_defaults() {
    let e = endpoint("a", &[]);
    assert_eq!(f64::from_bits(e.response_time_avg_bits), 1000.0);
    assert_eq!(f64::from_bits(e.capacity_score_bits), 0.8);
    assert_eq!(e.max_concurrent_requests, 10);
}

#[test]
fn capacity_scores_compare_as_numbers() {
    let scores = [f64::NEG_INFINITY, -2.5, -0.5, -1e-300, -0.0, 0.0, 1e-300, 0.1, 0.8, 3.0, f64::INFINITY];
    for w in scores.windows(2) {
        let (a, b) = (capacity_key(w[0].to_bits()), capacity_key(w[1].to_bits()));
        if w[0] == w[1] {
            assert_eq!(a, b);
        } else {
            assert!(a < b, "{} < {}", w[0], w[1]);
        }
    }
    let mut p = proxy(LoadBalancingStrategy::WeightedCapacity);
    let mut low = endpoint("negative", &["m"]);
    low.capacity_score_bits = (-0.5f64).to_bits();
    let mut high = endpoint("small", &["m"]);
    high.capacity_score_bits = 0.1f64.to_bits();
    p.register_endpoint(high).unwrap();
    p.register_endpoint(low).unwrap();
    assert_eq!(p.get_best_endpoint(Some("m")).unwrap(), "small");
}
