//! Routing of AI requests over registered service endpoints.
//!
//! An endpoint's response-time average and capacity score are non-negative
//! floating-point numbers; they are held here by their IEEE-754 bit patterns
//! (for non-negative numbers the order of the patterns is the order of the
//! numbers) and computed by the caller.
use crate::table::KeyedTable;
use crate::text::{owned, push_text, text_eq};
use vstd::prelude::*;

verus! {

/// Bit pattern of the floating-point number 1000.0.
pub const INITIAL_RESPONSE_TIME_BITS: u64 = 0x408F_4000_0000_0000;

/// Bit pattern of the floating-point number 0.8.
pub const INITIAL_CAPACITY_SCORE_BITS: u64 = 0x3FE9_9999_9999_999A;

/// An AI service that can handle requests.
#[derive(Debug, Clone)]
pub struct AiServiceEndpoint {
    pub id: String,
    pub url: String,
    /// Supported models, such as "gpt-4" or "llama-2".
    pub model_types: Vec<String>,
    pub max_concurrent_requests: usize,
    pub current_load: usize,
    pub is_healthy: bool,
    /// Average response time in milliseconds, by its bit pattern.
    pub response_time_avg_bits: u64,
    /// Capacity score between 0 and 1, by its bit pattern.
    pub capacity_score_bits: u64,
}

/// The texts of a list of strings.
pub open spec fn text_seq(v: Seq<String>) -> Seq<Seq<char>> {
    v.map_values(|s: String| s@)
}

impl AiServiceEndpoint {
    /// Whether the endpoint lists `model`.
    pub open spec fn supports(&self, model: Seq<char>) -> bool {
        text_seq(self.model_types@).contains(model)
    }

    /// Whether the endpoint can take a request for `model` (any model when none
    /// is named): it is healthy and, when a model is named, supports it.
    pub open spec fn eligible(&self, model: Option<Seq<char>>) -> bool {
        self.is_healthy && match model {
            Some(m) => self.supports(m),
            None => true,
        }
    }

    /// A healthy endpoint with room for 10 concurrent requests, no load, a
    /// response time of 1000 ms and a capacity score of 0.8.
    pub open spec fn new_spec(id: String, url: String, model_types: Vec<String>) -> AiServiceEndpoint {
        AiServiceEndpoint {
            id,
            url,
            model_types,
            max_concurrent_requests: 10,
            current_load: 0,
            is_healthy: true,
            response_time_avg_bits: INITIAL_RESPONSE_TIME_BITS,
            capacity_score_bits: INITIAL_CAPACITY_SCORE_BITS,
        }
    }

    /// A healthy endpoint with room for 10 concurrent requests, no load, a
    /// response time of 1000 ms and a capacity score of 0.8.
    pub fn new(id: String, url: String, model_types: Vec<String>) -> (e: Self)
        ensures
            e == AiServiceEndpoint::new_spec(id, url, model_types),
            e.id == id,
            e.url == url,
            e.model_types == model_types,
            e.max_concurrent_requests == 10,
            e.current_load == 0,
            e.is_healthy,
            e.response_time_avg_bits == INITIAL_RESPONSE_TIME_BITS,
            e.capacity_score_bits == INITIAL_CAPACITY_SCORE_BITS,
    {
        AiServiceEndpoint {
            id,
            url,
            model_types,
            max_concurrent_requests: 10,
            current_load: 0,
            is_healthy: true,
            response_time_avg_bits: INITIAL_RESPONSE_TIME_BITS,
            capacity_score_bits: INITIAL_CAPACITY_SCORE_BITS,
        }
    }

    /// One more request assigned, the load capped at the maximum.
    pub fn increment_load(&mut self)
        requires
            old(self).current_load < usize::MAX,
        ensures
            *final(self) == (AiServiceEndpoint {
                current_load: if old(self).current_load + 1 < old(self).max_concurrent_requests {
                    (old(self).current_load + 1) as usize
                } else {
                    old(self).max_concurrent_requests
                },
                ..*old(self)
            }),
    {
        let next = self.current_load + 1;
        self.current_load = if next < self.max_concurrent_requests {
            next
        } else {
            self.max_concurrent_requests
        };
    }

    /// One request completed: the load goes down by one, not below zero.
    pub fn decrement_load(&mut self)
        ensures
            *final(self) == (AiServiceEndpoint {
                current_load: if old(self).current_load > 0 {
                    (old(self).current_load - 1) as usize
                } else {
                    0
                },
                ..*old(self)
            }),
    {
        if self.current_load > 0 {
            self.current_load = self.current_load - 1;
        }
    }

    /// Whether the endpoint lists `model`.
    pub fn supports_model(&self, model: &str) -> (b: bool)
        ensures
            b == self.supports(model@),
    {
        let n = self.model_types.len();
        let mut i: usize = 0;
        while i < n
            invariant
                n == self.model_types@.len(),
                i <= n,
                forall|j: int| 0 <= j < i ==> self.model_types@[j]@ != model@,
            decreases n - i,
        {
            if text_eq(self.model_types[i].as_str(), model) {
                proof {
                    assert(text_seq(self.model_types@)[i as int] == model@);
                }
                return true;
            }
            i = i + 1;
        }
        proof {
            if text_seq(self.model_types@).contains(model@) {
                let j = choose|j: int| 0 <= j < text_seq(self.model_types@).len() && text_seq(self.model_types@)[j] == model@;
                assert(self.model_types@[j]@ == model@);
            }
        }
        false
    }

    /// Whether the endpoint can take a request for `model`.
    pub fn is_eligible(&self, model: Option<&str>) -> (b: bool)
        ensures
            b == self.eligible(match model {
                Some(m) => Some(m@),
                None => None,
            }),
    {
        if !self.is_healthy {
            return false;
        }
        match model {
            Some(m) => self.supports_model(m),
            None => true,
        }
    }
}

/// How a request picks among the endpoints that can take it.
#[derive(Debug, Clone, Copy, PartialEq, Eq, Structural)]
pub enum LoadBalancingStrategy {
    /// In turn.
    RoundRobin,
    /// The least loaded (the first of them).
    LeastLoaded,
    /// The highest capacity score (the last of them).
    WeightedCapacity,
    /// As WeightedCapacity, among the endpoints of the requested model.
    ModelSpecific,
}

/// How the proxy behaves.
#[derive(Debug, Clone, Copy)]
pub struct AiProxyConfig {
    pub health_check_interval_secs: u64,
    pub request_timeout_secs: u64,
    pub retry_attempts: usize,
    pub load_balancing_strategy: LoadBalancingStrategy,
}

impl Default for AiProxyConfig {
    /// Health checks every 30 s, 60 s timeout, 2 retries, weighted by capacity.
    fn default() -> (c: Self)
        ensures
            c.health_check_interval_secs == 30,
            c.request_timeout_secs == 60,
            c.retry_attempts == 2,
            c.load_balancing_strategy == LoadBalancingStrategy::WeightedCapacity,
    {
        AiProxyConfig {
            health_check_interval_secs: 30,
            request_timeout_secs: 60,
            retry_attempts: 2,
            load_balancing_strategy: LoadBalancingStrategy::WeightedCapacity,
        }
    }
}

/// "Endpoint with id '<id>' already exists".
pub open spec fn duplicate_endpoint_message(id: Seq<char>) -> Seq<char> {
    "Endpoint with id '"@ + id + "' already exists"@
}

/// "Endpoint with id '<id>' not found".
pub open spec fn missing_endpoint_message(id: Seq<char>) -> Seq<char> {
    "Endpoint with id '"@ + id + "' not found"@
}

/// "No healthy endpoints available for requested model type".
pub open spec fn no_endpoint_message() -> Seq<char> {
    "No healthy endpoints available for requested model type"@
}

fn endpoint_message(id: &str, tail: &str) -> (s: String)
    ensures
        s@ == "Endpoint with id '"@ + id@ + tail@,
{
    let mut s = "Endpoint with id '".to_owned();
    push_text(&mut s, id);
    push_text(&mut s, tail);
    s
}

/// The text of an optional model name.
pub open spec fn model_text(model: Option<&str>) -> Option<Seq<char>> {
    match model {
        Some(m) => Some(m@),
        None => None,
    }
}

/// `i` is the first position in `a` of an endpoint with the least load.
pub open spec fn first_least_loaded(m: Map<Seq<char>, AiServiceEndpoint>, a: Seq<Seq<char>>, i: int) -> bool {
    &&& 0 <= i < a.len()
    &&& forall|j: int| 0 <= j < a.len() ==> m[a[i]].current_load <= #[trigger] m[a[j]].current_load
    &&& forall|j: int| 0 <= j < i ==> m[a[i]].current_load < #[trigger] m[a[j]].current_load
}

/// The sign bit of an IEEE 754 double.
pub open spec fn sign_bit() -> u64 {
    0x8000_0000_0000_0000
}

/// A key for the bit pattern `b` of a double that orders as the numbers do:
/// negative numbers (sign bit set) count down from the largest magnitude,
/// positive ones count up above them, and -0.0 shares the key of +0.0. Of two
/// doubles that are not NaN, the smaller has the smaller key, and equal ones
/// (-0.0 and +0.0 among them) have equal keys.
pub open spec fn capacity_order_key(b: u64) -> u64 {
    if b == sign_bit() {
        sign_bit()
    } else if b > sign_bit() {
        (u64::MAX - b) as u64
    } else {
        (b + sign_bit()) as u64
    }
}

/// See `capacity_order_key`.
pub fn capacity_key(b: u64) -> (k: u64)
    ensures
        k == capacity_order_key(b),
{
    if b == 0x8000_0000_0000_0000 {
        0x8000_0000_0000_0000
    } else if b > 0x8000_0000_0000_0000 {
        u64::MAX - b
    } else {
        b + 0x8000_0000_0000_0000
    }
}

/// `i` is the last position in `a` of an endpoint with the highest capacity
/// score, scores compared as numbers (by `capacity_order_key`).
pub open spec fn last_highest_capacity(m: Map<Seq<char>, AiServiceEndpoint>, a: Seq<Seq<char>>, i: int) -> bool {
    &&& 0 <= i < a.len()
    &&& forall|j: int| 0 <= j < a.len() ==> capacity_order_key(#[trigger] m[a[j]].capacity_score_bits) <= capacity_order_key(
        m[a[i]].capacity_score_bits,
    )
    &&& forall|j: int| i < j < a.len() ==> capacity_order_key(#[trigger] m[a[j]].capacity_score_bits) < capacity_order_key(
        m[a[i]].capacity_score_bits,
    )
}

fn no_endpoint_message_text() -> (s: String)
    ensures
        s@ == no_endpoint_message(),
{
    "No healthy endpoints available for requested model type".to_owned()
}

/// Routes AI requests over registered endpoints.
pub struct AiProxy {
    endpoints: KeyedTable<AiServiceEndpoint>,
    config: AiProxyConfig,
    round_robin_index: usize,
    request_counter: u64,
}

impl AiProxy {
    /// The endpoints by id.
    pub closed spec fn view(&self) -> Map<Seq<char>, AiServiceEndpoint> {
        self.endpoints@
    }

    /// The endpoint ids in the order they were registered.
    pub closed spec fn order(&self) -> Seq<Seq<char>> {
        self.endpoints.keys()
    }

    pub closed spec fn wf(&self) -> bool {
        &&& self.endpoints.wf()
        &&& forall|k: Seq<char>| #[trigger] self.endpoints@.contains_key(k) ==> self.endpoints@[k].id@ == k
    }

    pub closed spec fn config_spec(&self) -> AiProxyConfig {
        self.config
    }

    /// Number of requests seen.
    pub closed spec fn request_count_spec(&self) -> u64 {
        self.request_counter
    }

    /// Number of requests seen.
    pub fn request_count(&self) -> (n: u64)
        ensures
            n == self.request_count_spec(),
    {
        self.request_counter
    }

    /// The routing configuration.
    pub fn config(&self) -> (c: AiProxyConfig)
        ensures
            c == self.config_spec(),
    {
        self.config
    }

    /// The turn counter of round-robin routing.
    pub fn round_robin_turn(&self) -> (n: usize)
        ensures
            n == self.round_robin_spec(),
    {
        self.round_robin_index
    }

    /// The turn counter of round-robin routing.
    pub closed spec fn round_robin_spec(&self) -> usize {
        self.round_robin_index
    }

    /// The ids of the endpoints that can take a request for `model`, in
    /// registration order.
    pub open spec fn available(&self, model: Option<Seq<char>>) -> Seq<Seq<char>> {
        self.order().filter(|k: Seq<char>| self@[k].eligible(model))
    }

    /// The registration order lists every endpoint once: its set is the
    /// endpoints' ids, and its length is their number.
    pub proof fn lemma_order(&self)
        requires
            self.wf(),
        ensures
            self@.dom() == self.order().to_set(),
            self@.dom().len() == self.order().len(),
            self.order().no_duplicates(),
            forall|i: int| 0 <= i < self.order().len() ==> #[trigger] self@.contains_key(self.order()[i]),
    {
        self.endpoints.lemma_domain();
        assert forall|i: int| 0 <= i < self.order().len() implies #[trigger] self@.contains_key(self.order()[i]) by {
            self.endpoints.lemma_index(i);
        }
    }

    /// A proxy with no endpoints.
    pub fn new(config: AiProxyConfig) -> (p: Self)
        ensures
            p.wf(),
            p@ == Map::<Seq<char>, AiServiceEndpoint>::empty(),
            p.order() == Seq::<Seq<char>>::empty(),
            p.config_spec() == config,
            p.round_robin_spec() == 0,
            p.request_count_spec() == 0,
    {
        AiProxy { endpoints: KeyedTable::new(), config, round_robin_index: 0, request_counter: 0 }
    }

    /// Registers an endpoint under its id; fails when the id is taken.
    pub fn register_endpoint(&mut self, endpoint: AiServiceEndpoint) -> (r: Result<(), String>)
        requires
            old(self).wf(),
        ensures
            final(self).wf(),
            final(self).config_spec() == old(self).config_spec(),
            final(self).round_robin_spec() == old(self).round_robin_spec(),
            final(self).request_count_spec() == old(self).request_count_spec(),
            old(self)@.contains_key(endpoint.id@) ==> (r matches Err(msg) && msg@ == duplicate_endpoint_message(endpoint.id@))
                && final(self)@ == old(self)@ && final(self).order() == old(self).order(),
            !old(self)@.contains_key(endpoint.id@) ==> r is Ok && final(self)@ == old(self)@.insert(endpoint.id@, endpoint)
                && final(self).order() == old(self).order().push(endpoint.id@),
    {
        if self.endpoints.contains_key(&endpoint.id) {
            return Err(endpoint_message(endpoint.id.as_str(), "' already exists"));
        }
        let id = endpoint.id.clone();
        let ghost e = endpoint;
        self.endpoints.insert(id, endpoint);
        proof {
            assert forall|k: Seq<char>| #[trigger] self.endpoints@.contains_key(k) implies self.endpoints@[k].id@ == k by {
                if k != e.id@ {
                    assert(old(self).endpoints@.contains_key(k));
                }
            }
        }
        Ok(())
    }

    /// Removes the endpoint with the given id, returning it; fails when there is none.
    pub fn remove_endpoint(&mut self, endpoint_id: &str) -> (r: Result<AiServiceEndpoint, String>)
        requires
            old(self).wf(),
        ensures
            final(self).wf(),
            final(self)@ == old(self)@.remove(endpoint_id@),
            final(self).config_spec() == old(self).config_spec(),
            final(self).round_robin_spec() == old(self).round_robin_spec(),
            final(self).request_count_spec() == old(self).request_count_spec(),
            old(self)@.contains_key(endpoint_id@) ==> r == Ok::<AiServiceEndpoint, String>(old(self)@[endpoint_id@]),
            !old(self)@.contains_key(endpoint_id@) ==> (r matches Err(msg) && msg@ == missing_endpoint_message(endpoint_id@)),
    {
        let key = owned(endpoint_id);
        match self.endpoints.remove(&key) {
            Some(e) => {
                proof {
                    assert forall|k: Seq<char>| #[trigger] self.endpoints@.contains_key(k) implies self.endpoints@[k].id@ == k by {
                        assert(old(self).endpoints@.contains_key(k));
                    }
                }
                Ok(e)
            },
            None => Err(endpoint_message(endpoint_id, "' not found")),
        }
    }

    /// The endpoint with the given id.
    pub fn endpoint(&self, endpoint_id: &str) -> (r: Option<&AiServiceEndpoint>)
        requires
            self.wf(),
        ensures
            r matches Some(e) ==> self@.contains_key(endpoint_id@) && *e == self@[endpoint_id@],
            r is None <==> !self@.contains_key(endpoint_id@),
    {
        let key = owned(endpoint_id);
        self.endpoints.get(&key)
    }

    /// The endpoints in registration order.
    pub fn endpoints(&self) -> (r: Vec<AiServiceEndpoint>)
        requires
            self.wf(),
        ensures
            r@.len() == self.order().len(),
            forall|i: int| 0 <= i < r@.len() ==> cloned(self@[self.order()[i]], #[trigger] r@[i]),
    {
        proof {
            self.lemma_order();
        }
        let n = self.endpoints.len();
        let mut r: Vec<AiServiceEndpoint> = Vec::new();
        let mut i: usize = 0;
        while i < n
            invariant
                self.wf(),
                n == self.order().len(),
                i <= n,
                r@.len() == i,
                forall|j: int| 0 <= j < i ==> cloned(self@[self.order()[j]], #[trigger] r@[j]),
            decreases n - i,
        {
            let (_, e) = self.endpoints.entry_at(i);
            r.push(e.clone());
            i = i + 1;
        }
        r
    }

    /// Number of registered endpoints.
    pub fn endpoint_count(&self) -> (n: usize)
        requires
            self.wf(),
        ensures
            n == self@.dom().len(),
    {
        self.endpoints.len()
    }

    /// The ids of the unhealthy endpoints, in registration order.
    pub fn unhealthy_endpoint_ids(&self) -> (r: Vec<String>)
        requires
            self.wf(),
        ensures
            r@.map_values(|s: String| s@) == self.order().filter(|k: Seq<char>| !self@[k].is_healthy),
    {
        proof {
            self.lemma_order();
        }
        let n = self.endpoints.len();
        let mut r: Vec<String> = Vec::new();
        let mut i: usize = 0;
        let ghost pred = |k: Seq<char>| !self@[k].is_healthy;
        proof {
            reveal(Seq::filter);
            assert(self.order().take(0) =~= Seq::<Seq<char>>::empty());
            assert(r@.map_values(|s: String| s@) =~= self.order().take(0).filter(pred));
        }
        while i < n
            invariant
                self.wf(),
                n == self.order().len(),
                i <= n,
                pred == (|k: Seq<char>| !self@[k].is_healthy),
                r@.map_values(|s: String| s@) == self.order().take(i as int).filter(pred),
            decreases n - i,
        {
            let (k, e) = self.endpoints.entry_at(i);
            let ghost before = r@;
            proof {
                reveal(Seq::filter);
                assert(self.order().take(i + 1).drop_last() =~= self.order().take(i as int));
                assert(self.order().take(i + 1).last() == self.order()[i as int]);
            }
            if !e.is_healthy {
                r.push(k.clone());
                proof {
                    assert(r@.map_values(|s: String| s@) =~= before.map_values(|s: String| s@).push(k@));
                }
            }
            i = i + 1;
        }
        proof {
            assert(self.order().take(n as int) =~= self.order());
        }
        r
    }

    /// Records a completed request on an endpoint: stores its new response-time
    /// average and capacity score (computed by the caller) and, for a failed
    /// request, takes one unit of load off it. Fails when there is no such
    /// endpoint.
    pub fn update_endpoint_metrics(
        &mut self,
        endpoint_id: &str,
        response_time_avg_bits: u64,
        capacity_score_bits: u64,
        success: bool,
    ) -> (r: Result<(), String>)
        requires
            old(self).wf(),
        ensures
            final(self).wf(),
            final(self).order() == old(self).order(),
            final(self).config_spec() == old(self).config_spec(),
            final(self).round_robin_spec() == old(self).round_robin_spec(),
            final(self).request_count_spec() == old(self).request_count_spec(),
            !old(self)@.contains_key(endpoint_id@) ==> (r matches Err(msg) && msg@ == missing_endpoint_message(endpoint_id@))
                && final(self)@ == old(self)@,
            old(self)@.contains_key(endpoint_id@) ==> r is Ok && final(self)@ == old(self)@.insert(
                endpoint_id@,
                ({
                    let e = old(self)@[endpoint_id@];
                    AiServiceEndpoint {
                        response_time_avg_bits,
                        capacity_score_bits,
                        current_load: if !success && e.current_load > 0 {
                            (e.current_load - 1) as usize
                        } else {
                            e.current_load
                        },
                        ..e
                    }
                }),
            ),
    {
        let key = owned(endpoint_id);
        match self.endpoints.find(&key) {
            Some(pos) => {
                proof {
                    self.endpoints.lemma_index(pos as int);
                }
                let vacant = AiServiceEndpoint::new(String::new(), String::new(), Vec::new());
                let mut e = self.endpoints.replace_value_at(pos, vacant);
                e.response_time_avg_bits = response_time_avg_bits;
                e.capacity_score_bits = capacity_score_bits;
                if !success {
                    e.decrement_load();
                }
                let _ = self.endpoints.replace_value_at(pos, e);
                proof {
                    assert forall|k: Seq<char>| #[trigger] self.endpoints@.contains_key(k) implies self.endpoints@[k].id@ == k by {
                        assert(old(self).endpoints@.contains_key(k));
                    }
                }
                Ok(())
            },
            None => Err(endpoint_message(endpoint_id, "' not found")),
        }
    }

    /// Counts one more request.
    pub fn increment_request_counter(&mut self)
        requires
            old(self).request_count_spec() < u64::MAX,
        ensures
            final(self).request_count_spec() == old(self).request_count_spec() + 1,
            final(self)@ == old(self)@,
            final(self).order() == old(self).order(),
            final(self).wf() == old(self).wf(),
            final(self).config_spec() == old(self).config_spec(),
            final(self).round_robin_spec() == old(self).round_robin_spec(),
    {
        self.request_counter = self.request_counter + 1;
    }

    /// The ids (positions in the table) of the endpoints that can take a request
    /// for `model`, in registration order.
    fn available_positions(&self, model: Option<&str>) -> (r: Vec<usize>)
        requires
            self.wf(),
        ensures
            r@.len() == self.available(model_text(model)).len(),
            forall|j: int| 0 <= j < r@.len() ==> #[trigger] r@[j] < self.order().len() && self.order()[r@[j] as int]
                == self.available(model_text(model))[j],
    {
        proof {
            self.lemma_order();
        }
        let ghost mt = model_text(model);
        let ghost pred = |k: Seq<char>| self@[k].eligible(mt);
        let n = self.endpoints.len();
        let mut r: Vec<usize> = Vec::new();
        let mut i: usize = 0;
        proof {
            reveal(Seq::filter);
            assert(self.order().take(0) =~= Seq::<Seq<char>>::empty());
        }
        while i < n
            invariant
                self.wf(),
                n == self.order().len(),
                i <= n,
                pred == (|k: Seq<char>| self@[k].eligible(mt)),
                mt == model_text(model),
                r@.len() == self.order().take(i as int).filter(pred).len(),
                forall|j: int| 0 <= j < r@.len() ==> #[trigger] r@[j] < i && self.order()[r@[j] as int]
                    == self.order().take(i as int).filter(pred)[j],
            decreases n - i,
        {
            let (_, e) = self.endpoints.entry_at(i);
            proof {
                reveal(Seq::filter);
                self.endpoints.lemma_index(i as int);
                assert(self.order().take(i + 1).drop_last() =~= self.order().take(i as int));
                assert(self.order().take(i + 1).last() == self.order()[i as int]);
            }
            if e.is_eligible(model) {
                r.push(i);
            }
            i = i + 1;
        }
        proof {
            assert(self.order().take(n as int) =~= self.order());
        }
        r
    }

    /// Picks, among the available positions, the one the strategy routes to.
    fn choose_position(&self, avail: &Vec<usize>, strategy: LoadBalancingStrategy) -> (c: usize)
        requires
            self.wf(),
            avail@.len() > 0,
            forall|j: int| 0 <= j < avail@.len() ==> #[trigger] avail@[j] < self.order().len(),
        ensures
            c < avail@.len(),
            ({
                let a = avail@.map_values(|p: usize| self.order()[p as int]);
                match strategy {
                    LoadBalancingStrategy::RoundRobin => c as int == (self.round_robin_spec() as int) % (avail@.len() as int),
                    LoadBalancingStrategy::LeastLoaded => first_least_loaded(self@, a, c as int),
                    _ => last_highest_capacity(self@, a, c as int),
                }
            }),
    {
        proof {
            self.lemma_order();
        }
        let ghost a = avail@.map_values(|p: usize| self.order()[p as int]);
        let n = avail.len();
        match strategy {
            LoadBalancingStrategy::RoundRobin => self.round_robin_index % n,
            LoadBalancingStrategy::LeastLoaded => {
                let mut best: usize = 0;
                let mut j: usize = 1;
                while j < n
                    invariant
                        self.wf(),
                        n == avail@.len(),
                        a == avail@.map_values(|p: usize| self.order()[p as int]),
                        forall|q: int| 0 <= q < avail@.len() ==> #[trigger] avail@[q] < self.order().len(),
                        forall|k: int| 0 <= k < self.order().len() ==> #[trigger] self@.contains_key(self.order()[k]),
                        0 <= best < j <= n,
                        forall|q: int| 0 <= q < j ==> self@[a[best as int]].current_load <= #[trigger] self@[a[q]].current_load,
                        forall|q: int| 0 <= q < best ==> self@[a[best as int]].current_load < #[trigger] self@[a[q]].current_load,
                    decreases n - j,
                {
                    let (_, e) = self.endpoints.entry_at(avail[j]);
                    let (_, b) = self.endpoints.entry_at(avail[best]);
                    if e.current_load < b.current_load {
                        best = j;
                    }
                    j = j + 1;
                }
                best
            },
            _ => {
                let mut best: usize = 0;
                let mut j: usize = 1;
                while j < n
                    invariant
                        self.wf(),
                        n == avail@.len(),
                        a == avail@.map_values(|p: usize| self.order()[p as int]),
                        forall|q: int| 0 <= q < avail@.len() ==> #[trigger] avail@[q] < self.order().len(),
                        forall|k: int| 0 <= k < self.order().len() ==> #[trigger] self@.contains_key(self.order()[k]),
                        0 <= best < j <= n,
                        forall|q: int| 0 <= q < j ==> capacity_order_key(#[trigger] self@[a[q]].capacity_score_bits) <= capacity_order_key(
                            self@[a[best as int]].capacity_score_bits,
                        ),
                        forall|q: int| best < q < j ==> capacity_order_key(#[trigger] self@[a[q]].capacity_score_bits) < capacity_order_key(
                            self@[a[best as int]].capacity_score_bits,
                        ),
                    decreases n - j,
                {
                    let (_, e) = self.endpoints.entry_at(avail[j]);
                    let (_, b) = self.endpoints.entry_at(avail[best]);
                    if capacity_key(e.capacity_score_bits) >= capacity_key(b.capacity_score_bits) {
                        best = j;
                    }
                    j = j + 1;
                }
                best
            },
        }
    }

    /// Routes a request for `model` (any model when none): among the healthy
    /// endpoints that support it, in registration order, picks one by the
    /// configured strategy (round robin advances its turn counter), assigns it
    /// one more unit of load and returns its id. Fails when no endpoint can take
    /// the request.
    pub fn get_best_endpoint(&mut self, model_type: Option<&str>) -> (r: Result<String, String>)
        requires
            old(self).wf(),
            forall|k: Seq<char>| #[trigger] old(self)@.contains_key(k) ==> old(self)@[k].current_load < usize::MAX,
            old(self).config_spec().load_balancing_strategy == LoadBalancingStrategy::RoundRobin
                ==> old(self).round_robin_spec() < usize::MAX,
        ensures
            final(self).wf(),
            final(self).order() == old(self).order(),
            final(self).config_spec() == old(self).config_spec(),
            final(self).request_count_spec() == old(self).request_count_spec(),
            routes(*old(self), *final(self), model_text(model_type), r),
    {
        proof {
            self.lemma_order();
        }
        let ghost a = self.available(model_text(model_type));
        let avail = self.available_positions(model_type);
        if avail.len() == 0 {
            return Err(no_endpoint_message_text());
        }
        let strategy = self.config.load_balancing_strategy;
        let c = self.choose_position(&avail, strategy);
        proof {
            assert(avail@.map_values(|p: usize| self.order()[p as int]) =~= a);
        }
        if strategy == LoadBalancingStrategy::RoundRobin {
            self.round_robin_index = self.round_robin_index + 1;
        }
        let pos = avail[c];
        let (k, _) = self.endpoints.entry_at(pos);
        let id = k.clone();
        proof {
            assert(a[c as int] == self.order()[pos as int]);
            self.endpoints.lemma_index(pos as int);
        }
        let ghost sel = a[c as int];
        let vacant = AiServiceEndpoint::new(String::new(), String::new(), Vec::new());
        let mut chosen = self.endpoints.replace_value_at(pos, vacant);
        chosen.increment_load();
        let _ = self.endpoints.replace_value_at(pos, chosen);
        proof {
            assert forall|k: Seq<char>| #[trigger] self.endpoints@.contains_key(k) implies self.endpoints@[k].id@ == k by {
                if k != sel {
                    assert(old(self).endpoints@.contains_key(k));
                }
            }
        }
        proof {
            let cc = c as int;
            let before = *old(self);
            assert(before.available(model_text(model_type)) == a);
            assert(id@ == a[cc]);
            assert(before@.contains_key(a[cc]));
            let e = before@[a[cc]];
            assert(self@ == before@.insert(
                a[cc],
                AiServiceEndpoint {
                    current_load: if e.current_load + 1 < e.max_concurrent_requests {
                        (e.current_load + 1) as usize
                    } else {
                        e.max_concurrent_requests
                    },
                    ..e
                },
            ));
            assert(self.round_robin_spec() == if strategy == LoadBalancingStrategy::RoundRobin {
                (before.round_robin_spec() + 1) as usize
            } else {
                before.round_robin_spec()
            });
        }
        Ok(id)
    }
}

/// What routing a request for `model` does (see `AiProxy::get_best_endpoint`):
/// `before` is the proxy before, `after` the proxy after, `r` the result.
pub open spec fn routes(before: AiProxy, after: AiProxy, model: Option<Seq<char>>, r: Result<String, String>) -> bool {
    let a = before.available(model);
    let strategy = before.config_spec().load_balancing_strategy;
    if a.len() == 0 {
        &&& r matches Err(msg) && msg@ == no_endpoint_message()
        &&& after@ == before@
        &&& after.round_robin_spec() == before.round_robin_spec()
    } else {
        exists|c: int|
            {
                &&& match strategy {
                    LoadBalancingStrategy::RoundRobin => c == (before.round_robin_spec() as int) % (a.len() as int),
                    LoadBalancingStrategy::LeastLoaded => first_least_loaded(before@, a, c),
                    _ => last_highest_capacity(before@, a, c),
                }
                &&& r matches Ok(id) && id@ == #[trigger] a[c]
                &&& after@ == before@.insert(
                    a[c],
                    AiServiceEndpoint {
                        current_load: if before@[a[c]].current_load + 1 < before@[a[c]].max_concurrent_requests {
                            (before@[a[c]].current_load + 1) as usize
                        } else {
                            before@[a[c]].max_concurrent_requests
                        },
                        ..before@[a[c]]
                    },
                )
                &&& after.round_robin_spec() == if strategy == LoadBalancingStrategy::RoundRobin {
                    (before.round_robin_spec() + 1) as usize
                } else {
                    before.round_robin_spec()
                }
            }
    }
}

/// Routing depends on the endpoints, their order, the configuration and the
/// round-robin turn only.
pub proof fn lemma_routes_depends_on_routing_state(
    b1: AiProxy,
    b2: AiProxy,
    a1: AiProxy,
    a2: AiProxy,
    model: Option<Seq<char>>,
    r: Result<String, String>,
)
    requires
        b1@ == b2@,
        b1.order() == b2.order(),
        b1.config_spec() == b2.config_spec(),
        b1.round_robin_spec() == b2.round_robin_spec(),
        a1@ == a2@,
        a1.round_robin_spec() == a2.round_robin_spec(),
        routes(b1, a1, model, r),
    ensures
        routes(b2, a2, model, r),
{
    let p1 = |k: Seq<char>| b1@[k].eligible(model);
    let p2 = |k: Seq<char>| b2@[k].eligible(model);
    assert(p1 =~= p2);
    assert(b1.available(model) == b2.available(model));
}

/// Routing only ever picks a healthy endpoint that was registered, and, when a
/// model is named, one that supports it; with any model (none named) an
/// unhealthy endpoint is still never picked.
pub proof fn lemma_routes_to_healthy(before: AiProxy, after: AiProxy, model: Option<Seq<char>>, id: String)
    requires
        routes(before, after, model, Ok(id)),
    ensures
        before@[id@].is_healthy,
        model matches Some(m) ==> before@[id@].supports(m),
        before.order().contains(id@),
{
    let a = before.available(model);
    let pred = |k: Seq<char>| before@[k].eligible(model);
    assert(a.len() > 0);
    let c = choose|c: int|
        {
            &&& match before.config_spec().load_balancing_strategy {
                LoadBalancingStrategy::RoundRobin => c == (before.round_robin_spec() as int) % (a.len() as int),
                LoadBalancingStrategy::LeastLoaded => first_least_loaded(before@, a, c),
                _ => last_highest_capacity(before@, a, c),
            }
            &&& Ok::<String, String>(id) matches Ok(i) && i@ == #[trigger] a[c]
            &&& after@ == before@.insert(
                a[c],
                AiServiceEndpoint {
                    current_load: if before@[a[c]].current_load + 1 < before@[a[c]].max_concurrent_requests {
                        (before@[a[c]].current_load + 1) as usize
                    } else {
                        before@[a[c]].max_concurrent_requests
                    },
                    ..before@[a[c]]
                },
            )
            &&& after.round_robin_spec() == if before.config_spec().load_balancing_strategy == LoadBalancingStrategy::RoundRobin {
                (before.round_robin_spec() + 1) as usize
            } else {
                before.round_robin_spec()
            }
        };
    assert(0 <= c < a.len());
    before.order().lemma_filter_pred(pred, c);
    assert(a[c] == id@);
    assert(a.contains(id@));
    before.order().lemma_filter_contains_rev(pred, id@);
}

} // verus!
