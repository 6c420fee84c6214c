//! The AI agent coordinator: response caching in front of endpoint routing.
//!
//! A request is handled in two steps around the backend call: `begin_ai_request`
//! counts it and either finds a cached response or routes it to an endpoint;
//! the caller then calls the backend, measures it, and hands the outcome to
//! `finish_ai_request`, which records the endpoint's new metrics and caches a
//! successful response.
use crate::ai_proxy::{
    AiProxy, AiProxyConfig, AiServiceEndpoint, LoadBalancingStrategy, lemma_routes_depends_on_routing_state, model_text, routes,
};
use crate::cache::{AiCache, AiResponseCache, CacheConfig, CacheEntry, response_key};
use crate::clock::now_millis;
use crate::text::owned;
use vstd::prelude::*;

verus! {

/// Health of the AI proxy system.
#[derive(Debug, Clone, Copy, PartialEq, Eq, Structural)]
pub enum HealthStatus {
    Healthy,
    Degraded,
    Unhealthy,
}

impl HealthStatus {
    pub fn is_healthy(&self) -> (b: bool)
        ensures
            b == (*self == HealthStatus::Healthy),
    {
        matches!(self, HealthStatus::Healthy)
    }

    pub fn is_degraded(&self) -> (b: bool)
        ensures
            b == (*self == HealthStatus::Degraded),
    {
        matches!(self, HealthStatus::Degraded)
    }

    pub fn is_unhealthy(&self) -> (b: bool)
        ensures
            b == (*self == HealthStatus::Unhealthy),
    {
        matches!(self, HealthStatus::Unhealthy)
    }
}

/// The health of the system with the endpoints that are down.
#[derive(Debug, Clone)]
pub struct HealthStatusDetailed {
    pub status: HealthStatus,
    pub unhealthy_endpoints: Vec<String>,
    /// Cache lookups that found a live entry, and those of a missing key.
    pub cache_hits: u64,
    pub cache_misses: u64,
    pub active_endpoints: usize,
}

/// The cache hit rate is below 30%: hits are fewer than three tenths of the
/// lookups counted (there must have been some).
pub open spec fn low_hit_rate(hits: u64, misses: u64) -> bool {
    hits + misses > 0 && hits * 10 < (hits + misses) * 3
}

/// Degraded when the hit rate is low or some endpoint is unhealthy; healthy otherwise.
pub open spec fn health_of(hits: u64, misses: u64, unhealthy_count: nat) -> HealthStatus {
    if low_hit_rate(hits, misses) || unhealthy_count > 0 {
        HealthStatus::Degraded
    } else {
        HealthStatus::Healthy
    }
}

/// The health of a system whose cache counted `hits` and `misses` and which has
/// `unhealthy_count` unhealthy endpoints.
pub fn assess_health(hits: u64, misses: u64, unhealthy_count: usize) -> (s: HealthStatus)
    ensures
        s == health_of(hits, misses, unhealthy_count as nat),
{
    let h = hits as u128;
    let total = h + (misses as u128);
    let mut status = HealthStatus::Healthy;
    if total > 0 && h * 10 < total * 3 {
        status = HealthStatus::Degraded;
    }
    if unhealthy_count > 0 {
        status = HealthStatus::Degraded;
    }
    status
}

/// How the coordinator behaves.
#[derive(Debug, Clone, Copy)]
pub struct AiCoordinatorConfig {
    pub proxy_config: AiProxyConfig,
    pub cache_config: CacheConfig,
    pub enable_intelligent_routing: bool,
    pub enable_adaptive_scaling: bool,
    pub enable_security_filtering: bool,
}

impl Default for AiCoordinatorConfig {
    /// Default proxy and cache settings, every feature on.
    fn default() -> (c: Self)
        ensures
            c.proxy_config.load_balancing_strategy == LoadBalancingStrategy::WeightedCapacity,
            c.cache_config.max_size == 1000,
            c.enable_intelligent_routing,
            c.enable_adaptive_scaling,
            c.enable_security_filtering,
    {
        AiCoordinatorConfig {
            proxy_config: AiProxyConfig::default(),
            cache_config: CacheConfig::default(),
            enable_intelligent_routing: true,
            enable_adaptive_scaling: true,
            enable_security_filtering: true,
        }
    }
}

/// Where a request goes after its first step.
#[derive(Debug)]
pub enum AiRequestStep {
    /// A cached response answers it.
    Cached(serde_json::Value),
    /// Call the backend through this endpoint, then `finish_ai_request`.
    Route(String),
    /// No endpoint is registered: call the backend directly, then
    /// `finish_direct_ai_request`.
    Direct,
}

/// Coordinates routing and caching of AI requests.
pub struct AiAgentCoordinator {
    pub ai_proxy: AiProxy,
    pub response_cache: AiResponseCache,
    pub config: AiCoordinatorConfig,
}

/// The two endpoints registered by default: "openai-default" (gpt-3.5-turbo,
/// gpt-4) and "anthropic-default" (anthropic-2, anthropic-3).
pub open spec fn default_endpoint_ids() -> Seq<Seq<char>> {
    seq!["openai-default"@, "anthropic-default"@]
}

impl AiAgentCoordinator {
    pub open spec fn wf(&self) -> bool {
        &&& self.ai_proxy.wf()
        &&& self.response_cache.wf()
    }

    /// A coordinator with no endpoints and an empty response cache (the AI
    /// response cache settings, whatever the cache configuration says).
    pub fn new(config: AiCoordinatorConfig) -> (c: Self)
        ensures
            c.wf(),
            c.config == config,
            c.ai_proxy@ == Map::<Seq<char>, AiServiceEndpoint>::empty(),
            c.ai_proxy.order() == Seq::<Seq<char>>::empty(),
            c.ai_proxy.config_spec() == config.proxy_config,
            c.ai_proxy.request_count_spec() == 0,
            c.response_cache@ == Map::<Seq<char>, CacheEntry<serde_json::Value>>::empty(),
            c.response_cache.hits_spec() == 0,
            c.response_cache.misses_spec() == 0,
    {
        AiAgentCoordinator {
            ai_proxy: AiProxy::new(config.proxy_config),
            response_cache: AiCache::ai_response_cache(),
            config,
        }
    }

    /// The endpoints registered by default.
    pub fn get_default_endpoints(&self) -> (v: Vec<AiServiceEndpoint>)
        ensures
            v@.len() == 2,
            v@[0].id@ == default_endpoint_ids()[0],
            v@[0].url@ == "https://api.openai.com/v1/chat/completions"@,
            v@[0].model_types@.map_values(|m: String| m@) == seq!["gpt-3.5-turbo"@, "gpt-4"@],
            v@[1].id@ == default_endpoint_ids()[1],
            v@[1].url@ == "https://api.anthropic.com/v1/messages"@,
            v@[1].model_types@.map_values(|m: String| m@) == seq!["anthropic-2"@, "anthropic-3"@],
            forall|i: int| 0 <= i < 2 ==> (#[trigger] v@[i]).is_healthy && v@[i].current_load == 0
                && v@[i].max_concurrent_requests == 10,
    {
        let openai_models = vec!["gpt-3.5-turbo".to_owned(), "gpt-4".to_owned()];
        let anthropic_models = vec!["anthropic-2".to_owned(), "anthropic-3".to_owned()];
        proof {
            assert(openai_models@.map_values(|m: String| m@) =~= seq!["gpt-3.5-turbo"@, "gpt-4"@]);
            assert(anthropic_models@.map_values(|m: String| m@) =~= seq!["anthropic-2"@, "anthropic-3"@]);
        }
        let openai = AiServiceEndpoint::new(
            "openai-default".to_owned(),
            "https://api.openai.com/v1/chat/completions".to_owned(),
            openai_models,
        );
        let anthropic = AiServiceEndpoint::new(
            "anthropic-default".to_owned(),
            "https://api.anthropic.com/v1/messages".to_owned(),
            anthropic_models,
        );
        vec![openai, anthropic]
    }

    /// Registers the default endpoints; an id already taken is skipped.
    pub fn initialize_with_defaults(&mut self) -> (r: Result<(), String>)
        requires
            old(self).wf(),
        ensures
            final(self).wf(),
            r is Ok,
            final(self).ai_proxy@.dom() == old(self).ai_proxy@.dom().union(default_endpoint_ids().to_set()),
            forall|k: Seq<char>| #[trigger] old(self).ai_proxy@.contains_key(k) ==> final(self).ai_proxy@[k]
                == old(self).ai_proxy@[k],
            final(self).ai_proxy.config_spec() == old(self).ai_proxy.config_spec(),
            final(self).ai_proxy.request_count_spec() == old(self).ai_proxy.request_count_spec(),
            final(self).response_cache == old(self).response_cache,
            final(self).config == old(self).config,
    {
        let mut endpoints = self.get_default_endpoints();
        let ghost ids = default_endpoint_ids();
        let ghost e0 = endpoints@[0];
        let ghost e1 = endpoints@[1];
        let second = endpoints.pop().unwrap();
        let first = endpoints.pop().unwrap();
        let _ = self.ai_proxy.register_endpoint(first);
        let _ = self.ai_proxy.register_endpoint(second);
        proof {
            assert(ids.to_set() =~= set![ids[0], ids[1]]);
            assert(self.ai_proxy@.dom() =~= old(self).ai_proxy@.dom().union(ids.to_set()));
        }
        Ok(())
    }

    /// What the first step of a request for `model` with input hash `hash`
    /// does at time `now`, from this coordinator to `after`, returning `r`:
    /// - the request is counted;
    /// - with intelligent routing on, the cache is looked up at `now` under
    ///   "model:hash" (a live entry is a hit, a missing key a miss); a live
    ///   entry answers the request with its value, and no endpoint changes;
    /// - otherwise, with no endpoint registered, the request goes to the
    ///   backend directly and no endpoint changes;
    /// - otherwise it is routed (see `routes`), and a routing failure is
    ///   returned as the error.
    pub open spec fn begin_outcome(
        self,
        after: Self,
        model: Seq<char>,
        hash: Seq<char>,
        now: u64,
        r: Result<AiRequestStep, String>,
    ) -> bool {
        let key = response_key(model, hash);
        let routing = self.config.enable_intelligent_routing;
        let hit = routing && self.response_cache.live_entry(key, now) is Some;
        &&& after.config == self.config
        &&& after.ai_proxy.request_count_spec() == self.ai_proxy.request_count_spec() + 1
        &&& after.ai_proxy.config_spec() == self.ai_proxy.config_spec()
        &&& after.ai_proxy.order() == self.ai_proxy.order()
        &&& after.response_cache@ == self.response_cache@
        &&& after.response_cache.config_spec() == self.response_cache.config_spec()
        &&& after.response_cache.hits_spec() == self.response_cache.hits_spec() + if hit {
            1int
        } else {
            0int
        }
        &&& after.response_cache.misses_spec() == self.response_cache.misses_spec() + if routing
            && !self.response_cache@.contains_key(key) {
            1int
        } else {
            0int
        }
        &&& hit ==> {
            &&& r matches Ok(AiRequestStep::Cached(v)) && v == self.response_cache.live_entry(key, now).unwrap().value
            &&& after.ai_proxy@ == self.ai_proxy@
            &&& after.ai_proxy.round_robin_spec() == self.ai_proxy.round_robin_spec()
        }
        &&& !hit && self.ai_proxy@.dom().len() == 0 ==> {
            &&& r matches Ok(AiRequestStep::Direct)
            &&& after.ai_proxy@ == self.ai_proxy@
            &&& after.ai_proxy.round_robin_spec() == self.ai_proxy.round_robin_spec()
        }
        &&& !hit && self.ai_proxy@.dom().len() > 0 ==> exists|routed: Result<String, String>|
            {
                &&& #[trigger] routes(self.ai_proxy, after.ai_proxy, Some(model), routed)
                &&& match routed {
                    Ok(id) => r matches Ok(AiRequestStep::Route(rid)) && rid@ == id@,
                    Err(e) => r == Err::<AiRequestStep, String>(e),
                }
            }
    }

    /// First step of a request for `model` with input hash `request_hash` at
    /// time `now` (see `begin_outcome`): the caller then calls the backend,
    /// through the endpoint returned or directly, or answers with the cached
    /// response.
    pub fn begin_ai_request_at(&mut self, model: &str, request_hash: &str, now: u64) -> (r: Result<AiRequestStep, String>)
        requires
            old(self).wf(),
            old(self).ai_proxy.request_count_spec() < u64::MAX,
            old(self).response_cache.hits_spec() < u64::MAX,
            old(self).response_cache.misses_spec() < u64::MAX,
            forall|k: Seq<char>| #[trigger] old(self).ai_proxy@.contains_key(k) ==> old(self).ai_proxy@[k].current_load < usize::MAX,
            old(self).ai_proxy.config_spec().load_balancing_strategy == LoadBalancingStrategy::RoundRobin
                ==> old(self).ai_proxy.round_robin_spec() < usize::MAX,
        ensures
            final(self).wf(),
            old(self).begin_outcome(*final(self), model@, request_hash@, now, r),
    {
        if self.config.enable_intelligent_routing {
            if let Some(v) = self.response_cache.get_cached_response_at(model, request_hash, now) {
                self.ai_proxy.increment_request_counter();
                return Ok(AiRequestStep::Cached(v));
            }
        }
        if self.ai_proxy.endpoint_count() == 0 {
            self.ai_proxy.increment_request_counter();
            return Ok(AiRequestStep::Direct);
        }
        let ghost before = self.ai_proxy;
        let routed = self.ai_proxy.get_best_endpoint(Some(model));
        proof {
            assert(model_text(Some(model)) == Some(model@));
            assert(routes(before, self.ai_proxy, Some(model@), routed));
        }
        let ghost after = self.ai_proxy;
        self.ai_proxy.increment_request_counter();
        proof {
            lemma_routes_depends_on_routing_state(before, old(self).ai_proxy, after, self.ai_proxy, Some(model@), routed);
        }
        match routed {
            Ok(id) => Ok(AiRequestStep::Route(id)),
            Err(e) => Err(e),
        }
    }

    /// `begin_ai_request_at` at the system clock's time.
    pub fn begin_ai_request(&mut self, model: &str, request_hash: &str) -> (r: Result<AiRequestStep, String>)
        requires
            old(self).wf(),
            old(self).ai_proxy.request_count_spec() < u64::MAX,
            old(self).response_cache.hits_spec() < u64::MAX,
            old(self).response_cache.misses_spec() < u64::MAX,
            forall|k: Seq<char>| #[trigger] old(self).ai_proxy@.contains_key(k) ==> old(self).ai_proxy@[k].current_load < usize::MAX,
            old(self).ai_proxy.config_spec().load_balancing_strategy == LoadBalancingStrategy::RoundRobin
                ==> old(self).ai_proxy.round_robin_spec() < usize::MAX,
        ensures
            final(self).wf(),
            exists|now: u64| #[trigger] old(self).begin_outcome(*final(self), model@, request_hash@, now, r),
    {
        let now = now_millis();
        self.begin_ai_request_at(model, request_hash, now)
    }

    /// Last step of a routed request: records the endpoint's new metrics
    /// (computed by the caller from the measured response time; a failed
    /// request also takes one unit of load off the endpoint), caches a
    /// successful response when intelligent routing is on, and returns the
    /// backend's outcome.
    pub fn finish_ai_request(
        &mut self,
        model: &str,
        request_hash: &str,
        endpoint_id: &str,
        outcome: Result<serde_json::Value, String>,
        response_time_avg_bits: u64,
        capacity_score_bits: u64,
    ) -> (r: Result<serde_json::Value, String>)
        requires
            old(self).wf(),
        ensures
            final(self).wf(),
            r == outcome,
            final(self).config == old(self).config,
            final(self).ai_proxy.request_count_spec() == old(self).ai_proxy.request_count_spec(),
            old(self).ai_proxy@.contains_key(endpoint_id@) ==> final(self).ai_proxy@ == old(self).ai_proxy@.insert(
                endpoint_id@,
                ({
                    let e = old(self).ai_proxy@[endpoint_id@];
                    AiServiceEndpoint {
                        response_time_avg_bits,
                        capacity_score_bits,
                        current_load: if outcome is Err && e.current_load > 0 {
                            (e.current_load - 1) as usize
                        } else {
                            e.current_load
                        },
                        ..e
                    }
                }),
            ),
            !old(self).ai_proxy@.contains_key(endpoint_id@) ==> final(self).ai_proxy@ == old(self).ai_proxy@,
            (outcome is Err || !old(self).config.enable_intelligent_routing) ==> final(self).response_cache@ == old(
                self,
            ).response_cache@,
            outcome matches Ok(v) ==> old(self).config.enable_intelligent_routing ==> (final(self).response_cache@
                == old(self).response_cache@ || (final(self).response_cache@.contains_key(response_key(model@, request_hash@))
                && final(self).response_cache@[response_key(model@, request_hash@)].value == v)),
    {
        let success = outcome.is_ok();
        let _ = self.ai_proxy.update_endpoint_metrics(endpoint_id, response_time_avg_bits, capacity_score_bits, success);
        match outcome {
            Ok(response) => {
                if self.config.enable_intelligent_routing {
                    let copy = response.clone();
                    let _ = self.response_cache.cache_ai_response(model, request_hash, copy, None);
                }
                Ok(response)
            },
            Err(e) => Err(e),
        }
    }

    /// Last step of a request that went to the backend directly: caches a
    /// successful response when intelligent routing is on, and returns the
    /// backend's outcome.
    pub fn finish_direct_ai_request(
        &mut self,
        model: &str,
        request_hash: &str,
        outcome: Result<serde_json::Value, String>,
    ) -> (r: Result<serde_json::Value, String>)
        requires
            old(self).wf(),
        ensures
            final(self).wf(),
            r == outcome,
            final(self).config == old(self).config,
            final(self).ai_proxy == old(self).ai_proxy,
            (outcome is Err || !old(self).config.enable_intelligent_routing) ==> final(self).response_cache == old(
                self,
            ).response_cache,
            old(self).config.enable_intelligent_routing && outcome is Ok ==> exists|now: u64, stored: Result<(), String>|
                #[trigger] old(self).response_cache.put_outcome(
                    final(self).response_cache,
                    response_key(model@, request_hash@),
                    outcome->Ok_0,
                    None,
                    now,
                    stored,
                ),
    {
        match outcome {
            Ok(response) => {
                if self.config.enable_intelligent_routing {
                    let copy = response.clone();
                    let _ = self.response_cache.cache_ai_response(model, request_hash, copy, None);
                }
                Ok(response)
            },
            Err(e) => Err(e),
        }
    }

    /// Registers an endpoint (see `AiProxy::register_endpoint`).
    pub fn register_ai_endpoint(&mut self, endpoint: AiServiceEndpoint) -> (r: Result<(), String>)
        requires
            old(self).wf(),
        ensures
            final(self).wf(),
            final(self).response_cache == old(self).response_cache,
            final(self).config == old(self).config,
            old(self).ai_proxy@.contains_key(endpoint.id@) ==> r is Err && final(self).ai_proxy@ == old(self).ai_proxy@,
            !old(self).ai_proxy@.contains_key(endpoint.id@) ==> r is Ok && final(self).ai_proxy@ == old(
                self,
            ).ai_proxy@.insert(endpoint.id@, endpoint),
            final(self).ai_proxy.request_count_spec() == old(self).ai_proxy.request_count_spec(),
            final(self).ai_proxy.config_spec() == old(self).ai_proxy.config_spec(),
    {
        self.ai_proxy.register_endpoint(endpoint)
    }

    /// The health of the system: degraded when the response cache's hit rate is
    /// below 30% (once it has counted lookups) or some endpoint is unhealthy.
    pub fn health_check(&self) -> (h: HealthStatusDetailed)
        requires
            self.wf(),
        ensures
            h.unhealthy_endpoints@.map_values(|s: String| s@) == self.ai_proxy.order().filter(
                |k: Seq<char>| !self.ai_proxy@[k].is_healthy,
            ),
            h.status == health_of(
                self.response_cache.hits_spec(),
                self.response_cache.misses_spec(),
                h.unhealthy_endpoints@.len(),
            ),
            h.cache_hits == self.response_cache.hits_spec(),
            h.cache_misses == self.response_cache.misses_spec(),
            h.active_endpoints == self.ai_proxy@.dom().len(),
    {
        let stats = self.response_cache.stats();
        let unhealthy = self.ai_proxy.unhealthy_endpoint_ids();
        let status = assess_health(stats.hits, stats.misses, unhealthy.len());
        HealthStatusDetailed {
            status,
            unhealthy_endpoints: unhealthy,
            cache_hits: stats.hits,
            cache_misses: stats.misses,
            active_endpoints: self.ai_proxy.endpoint_count(),
        }
    }
}

/// A response that is live in the cache when a request for it arrives, with
/// intelligent routing on, answers the request: its value is returned and no
/// endpoint is touched.
pub proof fn lemma_cached_response_served(
    c: AiAgentCoordinator,
    after: AiAgentCoordinator,
    model: Seq<char>,
    hash: Seq<char>,
    now: u64,
    r: Result<AiRequestStep, String>,
)
    requires
        c.config.enable_intelligent_routing,
        c.response_cache@.contains_key(response_key(model, hash)),
        !c.response_cache@[response_key(model, hash)].expired_at(now),
        c.begin_outcome(after, model, hash, now, r),
    ensures
        r == Ok::<AiRequestStep, String>(AiRequestStep::Cached(c.response_cache@[response_key(model, hash)].value)),
        after.ai_proxy@ == c.ai_proxy@,
{
}

/// A response cached at `t0` (as `finish_ai_request` caches it, with the
/// cache's default time-to-live) answers a request for the same model and
/// input that arrives before it expires: the value is returned, no endpoint
/// changes, and the request is counted.
pub proof fn lemma_finished_response_served(
    c: AiAgentCoordinator,
    after: AiAgentCoordinator,
    model: Seq<char>,
    hash: Seq<char>,
    v: serde_json::Value,
    cache_before: AiResponseCache,
    t0: u64,
    now: u64,
    r: Result<AiRequestStep, String>,
)
    requires
        cache_before.put_outcome(c.response_cache, response_key(model, hash), v, None, t0, Ok(())),
        cache_before.config_spec() == c.response_cache.config_spec(),
        c.config.enable_intelligent_routing,
        t0 <= now < t0 + c.response_cache.config_spec().default_ttl,
        c.begin_outcome(after, model, hash, now, r),
    ensures
        r == Ok::<AiRequestStep, String>(AiRequestStep::Cached(v)),
        after.ai_proxy@ == c.ai_proxy@,
        after.ai_proxy.request_count_spec() == c.ai_proxy.request_count_spec() + 1,
{
    let key = response_key(model, hash);
    let d = cache_before.config_spec().default_ttl;
    let kept = choose|kept: Map<Seq<char>, CacheEntry<serde_json::Value>>|
        {
            &&& (if cache_before@.dom().len() >= cache_before.config_spec().max_size {
                crate::cache::evicted_oldest(
                    cache_before@,
                    kept,
                    crate::cache::min_nat(cache_before.config_spec().eviction_batch_size as nat, cache_before@.dom().len()),
                )
            } else {
                kept == cache_before@
            })
            &&& c.response_cache@ == #[trigger] kept.insert(
                key,
                CacheEntry { value: v, expires_at: (t0 + d) as u64, created_at: t0 },
            )
        };
    assert(c.response_cache@[key] == CacheEntry { value: v, expires_at: (t0 + d) as u64, created_at: t0 });
}

} // verus!
