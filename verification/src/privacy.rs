//! Privacy protection: masking IP addresses in payloads, padding and
//! obfuscating traffic, anonymizing host names and stripping identifying
//! request headers.
use crate::random::{random_bytes, random_in_exclusive, random_in_inclusive};
use crate::table::KeyedTable;
use crate::text::{
    ends_with_text, has_suffix, hex_string, hex_text, lowercase_text, owned, push_char, push_text, substring, text_eq,
    to_lowercase, utf8_lossy, utf8_lossy_text,
};
use std::collections::hash_map::DefaultHasher;
use std::hash::{Hash, Hasher};
use vstd::prelude::*;

verus! {

/// How traffic is carried.
#[derive(Debug, Clone, Copy, PartialEq, Eq, Structural)]
pub enum ProxyMode {
    /// Direct connection.
    Direct,
    /// Through several relay nodes.
    Anonymous,
    /// End-to-end encrypted.
    Encrypted,
    /// With the traffic pattern obfuscated.
    Obfuscated,
}

/// How much is anonymized; each level includes the ones below it.
#[derive(Debug, Clone, Copy, PartialEq, Eq, Structural)]
pub enum PrivacyLevel {
    /// Only IP addresses are hidden.
    Low,
    /// Most identifiers are anonymized.
    Medium,
    /// As much data as possible is anonymized.
    High,
    /// Every anonymization technique.
    Ultra,
}

impl PrivacyLevel {
    /// The level's position: Low 0, Medium 1, High 2, Ultra 3.
    pub open spec fn rank_spec(self) -> nat {
        match self {
            PrivacyLevel::Low => 0,
            PrivacyLevel::Medium => 1,
            PrivacyLevel::High => 2,
            PrivacyLevel::Ultra => 3,
        }
    }

    /// The level's position: Low 0, Medium 1, High 2, Ultra 3.
    pub fn rank(&self) -> (r: u8)
        ensures
            r == self.rank_spec(),
    {
        match self {
            PrivacyLevel::Low => 0,
            PrivacyLevel::Medium => 1,
            PrivacyLevel::High => 2,
            PrivacyLevel::Ultra => 3,
        }
    }

    /// Whether this level is at least `other`.
    pub fn at_least(&self, other: &PrivacyLevel) -> (b: bool)
        ensures
            b == (self.rank_spec() >= other.rank_spec()),
    {
        self.rank() >= other.rank()
    }
}

/// Privacy settings.
#[derive(Debug, Clone, Copy)]
pub struct PrivacyConfig {
    pub level: PrivacyLevel,
    pub proxy_mode: ProxyMode,
    pub traffic_obfuscation: bool,
    pub ip_masking: bool,
    pub dns_over_https: bool,
    pub disable_logging: bool,
    pub randomize_request_timing: bool,
    pub use_padding: bool,
    pub max_hop_count: u8,
}

impl Default for PrivacyConfig {
    /// Medium level, anonymous mode, everything on but disabling logging, 3 hops.
    fn default() -> (c: Self)
        ensures
            c.level == PrivacyLevel::Medium,
            c.proxy_mode == ProxyMode::Anonymous,
            c.traffic_obfuscation && c.ip_masking && c.dns_over_https,
            !c.disable_logging,
            c.randomize_request_timing && c.use_padding,
            c.max_hop_count == 3,
    {
        PrivacyConfig {
            level: PrivacyLevel::Medium,
            proxy_mode: ProxyMode::Anonymous,
            traffic_obfuscation: true,
            ip_masking: true,
            dns_over_https: true,
            disable_logging: false,
            randomize_request_timing: true,
            use_padding: true,
            max_hop_count: 3,
        }
    }
}

/// Counters of the privacy processor.
#[derive(Debug, Clone, Copy)]
pub struct PrivacyStats {
    pub requests_processed: u64,
    pub bytes_processed: u64,
    pub anonymized_hosts: u64,
    pub obfuscated_connections: u64,
}

impl Default for PrivacyStats {
    /// All zero.
    fn default() -> (s: Self)
        ensures
            s.requests_processed == 0 && s.bytes_processed == 0 && s.anonymized_hosts == 0 && s.obfuscated_connections == 0,
    {
        PrivacyStats { requests_processed: 0, bytes_processed: 0, anonymized_hosts: 0, obfuscated_connections: 0 }
    }
}

// ------------------------------------------------------------------ IP masking

/// A character that can belong to an address: a digit, '.' or ':'.
pub open spec fn ip_char(c: char) -> bool {
    ('0' <= c && c <= '9') || c == '.' || c == ':'
}

/// End of the run of address characters starting at `i`.
pub open spec fn run_end(s: Seq<char>, i: int) -> int
    decreases s.len() - i,
{
    if 0 <= i < s.len() && ip_char(s[i]) {
        run_end(s, i + 1)
    } else {
        i
    }
}

pub proof fn lemma_run_end(s: Seq<char>, i: int)
    requires
        0 <= i <= s.len(),
    ensures
        i <= run_end(s, i) <= s.len(),
        run_end(s, i) == s.len() || !ip_char(s[run_end(s, i)]),
        forall|k: int| i <= k < run_end(s, i) ==> ip_char(#[trigger] s[k]),
    decreases s.len() - i,
{
    if i < s.len() && ip_char(s[i]) {
        lemma_run_end(s, i + 1);
    }
}

/// Number of '.' characters.
pub open spec fn dot_count(s: Seq<char>) -> nat
    decreases s.len(),
{
    if s.len() == 0 {
        0
    } else {
        (if s.last() == '.' {
            1nat
        } else {
            0nat
        }) + dot_count(s.drop_last())
    }
}

/// Looks like an IPv4 address: digits and dots only, split by the dots into
/// four parts.
pub open spec fn looks_like_ip(s: Seq<char>) -> bool {
    &&& dot_count(s) == 3
    &&& forall|i: int| 0 <= i < s.len() ==> ('0' <= #[trigger] s[i] && s[i] <= '9') || s[i] == '.'
}

/// The address put in place of a real one.
pub open spec fn masked_ip() -> Seq<char> {
    "192.168.0.1"@
}

/// The text from position `i` on with every maximal run of address characters
/// that looks like an IPv4 address replaced by "192.168.0.1".
pub open spec fn mask_from(s: Seq<char>, i: int) -> Seq<char>
    decreases s.len() - i,
{
    if i < 0 || i >= s.len() {
        Seq::empty()
    } else if !ip_char(s[i]) {
        seq![s[i]] + mask_from(s, i + 1)
    } else {
        let j = run_end(s, i);
        proof {
            lemma_run_end(s, i + 1);
        }
        (if looks_like_ip(s.subrange(i, j)) {
            masked_ip()
        } else {
            s.subrange(i, j)
        }) + mask_from(s, j)
    }
}

/// The text with its IPv4-looking addresses masked.
pub open spec fn mask_text(s: Seq<char>) -> Seq<char> {
    mask_from(s, 0)
}

/// The bytes with IPv4-looking addresses masked: decoded as lossy UTF-8,
/// masked, encoded again.
pub open spec fn mask_bytes(data: Seq<u8>) -> Seq<u8> {
    vstd::utf8::encode_utf8(mask_text(utf8_lossy_text(data)))
}

fn is_ip_char(c: char) -> (b: bool)
    ensures
        b == ip_char(c),
{
    ('0' <= c && c <= '9') || c == '.' || c == ':'
}

/// Whether the text looks like an IPv4 address.
pub fn looks_like_ip_address(s: &str) -> (b: bool)
    ensures
        b == looks_like_ip(s@),
{
    let n = s.unicode_len();
    let mut dots: usize = 0;
    let mut i: usize = 0;
    proof {
        assert(s@.take(0) =~= Seq::<char>::empty());
    }
    while i < n
        invariant
            n == s@.len(),
            i <= n,
            dots == dot_count(s@.take(i as int)),
            dots <= i,
            forall|k: int| 0 <= k < i ==> ('0' <= #[trigger] s@[k] && s@[k] <= '9') || s@[k] == '.',
        decreases n - i,
    {
        let c = s.get_char(i);
        proof {
            assert(s@.take(i + 1).drop_last() =~= s@.take(i as int));
            assert(s@.take(i + 1).last() == c);
        }
        if c == '.' {
            dots = dots + 1;
        } else if !('0' <= c && c <= '9') {
            return false;
        }
        i = i + 1;
    }
    proof {
        assert(s@.take(n as int) =~= s@);
    }
    dots == 3
}

/// The text with IPv4-looking addresses masked (see `mask_text`).
pub fn mask_ip_text(s: &str) -> (r: String)
    ensures
        r@ == mask_text(s@),
{
    let n = s.unicode_len();
    let mut out = String::new();
    let mut i: usize = 0;
    proof {
        assert(out@ + mask_from(s@, 0) =~= mask_from(s@, 0));
    }
    while i < n
        invariant
            n == s@.len(),
            i <= n,
            out@ + mask_from(s@, i as int) == mask_from(s@, 0),
        decreases n - i,
    {
        let c = s.get_char(i);
        if !is_ip_char(c) {
            let ghost before = out@;
            push_char(&mut out, c);
            proof {
                assert(mask_from(s@, i as int) == seq![c] + mask_from(s@, i + 1));
                assert(out@ + mask_from(s@, i + 1) =~= before + mask_from(s@, i as int));
            }
            i = i + 1;
        } else {
            let mut j: usize = i + 1;
            proof {
                assert(run_end(s@, i as int) == run_end(s@, i + 1));
            }
            while j < n && is_ip_char(s.get_char(j))
                invariant
                    n == s@.len(),
                    i < j <= n,
                    run_end(s@, j as int) == run_end(s@, i as int),
                decreases n - j,
            {
                j = j + 1;
            }
            proof {
                assert(run_end(s@, j as int) == j);
            }
            let run = substring(s, i, j);
            let ghost before = out@;
            if looks_like_ip_address(run.as_str()) {
                push_text(&mut out, "192.168.0.1");
            } else {
                push_text(&mut out, run.as_str());
            }
            proof {
                assert(out@ + mask_from(s@, j as int) =~= before + mask_from(s@, i as int));
            }
            i = j;
        }
    }
    proof {
        assert(out@ =~= mask_from(s@, 0));
    }
    out
}

/// The payload with IPv4-looking addresses masked (see `mask_bytes`).
pub fn mask_ip_addresses(data: &[u8]) -> (r: Vec<u8>)
    ensures
        r@ == mask_bytes(data@),
{
    let text = utf8_lossy(data);
    let masked = mask_ip_text(text.as_str());
    vstd::slice::slice_to_vec(masked.as_str().as_bytes())
}

// ------------------------------------------------------- padding, obfuscation

/// The padding followed by the data.
pub fn prepend_padding(padding: Vec<u8>, data: Vec<u8>) -> (r: Vec<u8>)
    ensures
        r@ == padding@ + data@,
{
    let mut r = padding;
    let mut d = data;
    r.append(&mut d);
    r
}

/// The data with `chunk` inserted at position `pos`.
pub fn insert_chunk(data: &Vec<u8>, pos: usize, chunk: &Vec<u8>) -> (r: Vec<u8>)
    requires
        pos <= data@.len(),
    ensures
        r@ == data@.subrange(0, pos as int) + chunk@ + data@.subrange(pos as int, data@.len() as int),
{
    let mut r: Vec<u8> = Vec::new();
    let mut i: usize = 0;
    while i < pos
        invariant
            pos <= data@.len(),
            i <= pos,
            r@ == data@.subrange(0, i as int),
        decreases pos - i,
    {
        r.push(data[i]);
        i = i + 1;
        assert(r@ =~= data@.subrange(0, i as int));
    }
    let mut j: usize = 0;
    while j < chunk.len()
        invariant
            j <= chunk@.len(),
            r@ == data@.subrange(0, pos as int) + chunk@.subrange(0, j as int),
        decreases chunk@.len() - j,
    {
        r.push(chunk[j]);
        j = j + 1;
        assert(r@ =~= data@.subrange(0, pos as int) + chunk@.subrange(0, j as int));
    }
    assert(chunk@.subrange(0, chunk@.len() as int) =~= chunk@);
    let mut k: usize = pos;
    while k < data.len()
        invariant
            pos <= k <= data@.len(),
            r@ == data@.subrange(0, pos as int) + chunk@ + data@.subrange(pos as int, k as int),
        decreases data@.len() - k,
    {
        r.push(data[k]);
        k = k + 1;
        assert(r@ =~= data@.subrange(0, pos as int) + chunk@ + data@.subrange(pos as int, k as int));
    }
    r
}

/// The data after IP masking (when enabled) and padding (when enabled and the
/// level is Medium or above).
pub open spec fn padded_data(config: PrivacyConfig, data: Seq<u8>, pad: Seq<u8>) -> Seq<u8> {
    let masked = if config.ip_masking {
        mask_bytes(data)
    } else {
        data
    };
    if config.level != PrivacyLevel::Low && config.use_padding {
        pad + masked
    } else {
        masked
    }
}

/// Whether the obfuscation step inserts a chunk: at High or Ultra level with
/// obfuscation enabled, into data longer than 100 bytes.
pub open spec fn obfuscates(config: PrivacyConfig, len: nat) -> bool {
    config.level.rank_spec() >= 2 && config.traffic_obfuscation && len > 100
}

/// What processing makes of `data`, given the random padding, insertion
/// position and dummy chunk.
pub open spec fn processed_data(config: PrivacyConfig, data: Seq<u8>, pad: Seq<u8>, pos: int, chunk: Seq<u8>) -> Seq<u8> {
    let p = padded_data(config, data, pad);
    if obfuscates(config, p.len()) {
        p.subrange(0, pos) + chunk + p.subrange(pos, p.len() as int)
    } else {
        p
    }
}

/// The random choices are as processing makes them: 10 to 500 padding bytes, a
/// 16-byte chunk inserted at least 10 bytes from either end.
pub open spec fn valid_choices(config: PrivacyConfig, data: Seq<u8>, pad: Seq<u8>, pos: int, chunk: Seq<u8>) -> bool {
    &&& 10 <= pad.len() <= 500
    &&& chunk.len() == 16
    &&& obfuscates(config, padded_data(config, data, pad).len()) ==> 10 <= pos < padded_data(config, data, pad).len() - 10
}

/// Upper bound on the length of processed data.
pub open spec fn processed_bound(config: PrivacyConfig, data: Seq<u8>) -> int {
    (if config.ip_masking {
        mask_bytes(data).len() as int
    } else {
        data.len() as int
    }) + 516
}

// ------------------------------------------------------------ request context

/// A request as seen by the privacy processor.
#[derive(Debug)]
pub struct RequestContext {
    pub method: String,
    pub url: String,
    pub hostname: Option<String>,
    pub headers: KeyedTable<String>,
    pub client_ip: Option<String>,
    pub user_agent: Option<String>,
    pub referer: Option<String>,
}

impl Default for RequestContext {
    /// A GET of "/" with nothing else set.
    fn default() -> (c: Self)
        ensures
            c.method@ == "GET"@,
            c.url@ == "/"@,
            c.hostname is None,
            c.headers.wf(),
            c.headers@ == Map::<Seq<char>, String>::empty(),
            c.client_ip is None && c.user_agent is None && c.referer is None,
    {
        RequestContext {
            method: "GET".to_owned(),
            url: "/".to_owned(),
            hostname: None,
            headers: KeyedTable::new(),
            client_ip: None,
            user_agent: None,
            referer: None,
        }
    }
}

/// The headers that identify the client, lowercase.
pub open spec fn sensitive_headers() -> Seq<Seq<char>> {
    seq![
        "authorization"@,
        "cookie"@,
        "x-forwarded-for"@,
        "x-real-ip"@,
        "x-originating-ip"@,
        "cf-connecting-ip"@,
        "true-client-ip"@,
        "x-client-ip"@,
        "x-cluster-client-ip"@,
        "via"@,
        "user-agent"@,
    ]
}

/// A header is sensitive when its lowercase name is one of `sensitive_headers`.
pub open spec fn is_sensitive(header: Seq<char>) -> bool {
    sensitive_headers().contains(lowercase_text(header))
}

/// Whether a header identifies the client (see `is_sensitive`).
pub fn is_sensitive_header(header: &str) -> (b: bool)
    ensures
        b == is_sensitive(header@),
{
    let lower = to_lowercase(header);
    let names = vec![
        "authorization",
        "cookie",
        "x-forwarded-for",
        "x-real-ip",
        "x-originating-ip",
        "cf-connecting-ip",
        "true-client-ip",
        "x-client-ip",
        "x-cluster-client-ip",
        "via",
        "user-agent",
    ];
    proof {
        assert(names@.map_values(|s: &str| s@) =~= sensitive_headers());
    }
    let mut i: usize = 0;
    while i < names.len()
        invariant
            i <= names@.len(),
            names@.map_values(|s: &str| s@) == sensitive_headers(),
            lower@ == lowercase_text(header@),
            forall|k: int| 0 <= k < i ==> sensitive_headers()[k] != lower@,
        decreases names@.len() - i,
    {
        if text_eq(lower.as_str(), names[i]) {
            proof {
                assert(sensitive_headers()[i as int] == names@[i as int]@);
            }
            return true;
        }
        proof {
            assert(sensitive_headers()[i as int] == names@[i as int]@);
        }
        i = i + 1;
    }
    false
}

/// The headers left once the sensitive ones are removed.
pub open spec fn without_sensitive(h: Map<Seq<char>, String>) -> Map<Seq<char>, String> {
    h.restrict(h.dom().filter(|k: Seq<char>| !is_sensitive(k)))
}

fn remove_sensitive_headers(headers: &mut KeyedTable<String>)
    requires
        old(headers).wf(),
    ensures
        final(headers).wf(),
        final(headers)@ == without_sensitive(old(headers)@),
{
    let ghost before = headers@;
    let mut i: usize = 0;
    proof {
        headers.lemma_domain();
    }
    while i < headers.len()
        invariant
            headers.wf(),
            before == old(headers)@,
            i <= headers.keys().len(),
            forall|k: Seq<char>| #[trigger] headers@.contains_key(k) ==> before.contains_key(k) && headers@[k] == before[k],
            forall|k: Seq<char>| #[trigger] before.contains_key(k) && !is_sensitive(k) ==> headers@.contains_key(k),
            forall|a: int| 0 <= a < i ==> !is_sensitive(#[trigger] headers.keys()[a]),
        decreases headers.keys().len() - i,
    {
        proof {
            headers.lemma_domain();
        }
        let (k, _) = headers.entry_at(i);
        if is_sensitive_header(k.as_str()) {
            let ghost cur = *headers;
            let ghost m = headers.keys()[i as int];
            let _ = headers.remove_at(i);
            proof {
                headers.lemma_domain();
                assert(headers@ == cur@.remove(m));
                assert forall|kk: Seq<char>| #[trigger] headers@.contains_key(kk) implies before.contains_key(kk) && headers@[kk]
                    == before[kk] by {
                    assert(cur@.contains_key(kk));
                }
                assert forall|a: int| 0 <= a < i implies !is_sensitive(#[trigger] headers.keys()[a]) by {
                    assert(headers.keys()[a] == cur.keys()[a]);
                }
            }
        } else {
            i = i + 1;
        }
    }
    proof {
        headers.lemma_domain();
        assert forall|k: Seq<char>| #[trigger] headers@.contains_key(k) implies !is_sensitive(k) by {
            assert(headers.keys().to_set().contains(k));
            let a = choose|a: int| 0 <= a < headers.keys().len() && headers.keys()[a] == k;
        }
        assert(headers@ =~= without_sensitive(before));
    }
}

/// The 64-bit hash that a `DefaultHasher::new()` gives after hashing the text
/// as a `str`. The standard library fixes the keys of such hashers (every
/// hasher made by `new` is the same) but does not specify the algorithm, so
/// only the name is known.
pub uninterp spec fn default_str_hash(s: Seq<char>) -> u64;

/// `DefaultHasher::new`, `str::hash` and `finish`: the hash named above.
#[verifier::external_body]
fn simple_hash(input: &str) -> (h: u64)
    ensures
        h == default_str_hash(input@),
{
    let mut hasher = DefaultHasher::new();
    input.hash(&mut hasher);
    hasher.finish()
}

/// The anonymous name for a host hashed to `h`: "anon-<h in hex>.nexlink".
pub open spec fn anonymous_name(h: u64) -> Seq<char> {
    "anon-"@ + hex_text(h as nat) + ".nexlink"@
}

/// The anonymous name for a host hashed to `h` (see `anonymous_name`).
pub fn anonymous_host_name(h: u64) -> (r: String)
    ensures
        r@ == anonymous_name(h),
{
    let mut name = "anon-".to_owned();
    let hex = hex_string(h);
    push_text(&mut name, hex.as_str());
    push_text(&mut name, ".nexlink");
    proof {
        assert(name@ == anonymous_name(h));
    }
    name
}

/// Applies the privacy settings to payloads and requests.
pub struct PrivacyProcessor {
    config: PrivacyConfig,
    hostname_cache: KeyedTable<String>,
    stats: PrivacyStats,
}

impl PrivacyProcessor {
    pub closed spec fn config_spec(&self) -> PrivacyConfig {
        self.config
    }

    /// Anonymized host names by original name.
    pub closed spec fn hostname_cache_spec(&self) -> Map<Seq<char>, String> {
        self.hostname_cache@
    }

    pub closed spec fn stats_spec(&self) -> PrivacyStats {
        self.stats
    }

    pub closed spec fn wf(&self) -> bool {
        self.hostname_cache.wf()
    }

    /// A processor with the given settings, no cached names and zero counters.
    pub fn new(config: PrivacyConfig) -> (p: Self)
        ensures
            p.wf(),
            p.config_spec() == config,
            p.hostname_cache_spec() == Map::<Seq<char>, String>::empty(),
            p.stats_spec() == PrivacyStats::default_spec(),
    {
        PrivacyProcessor { config, hostname_cache: KeyedTable::new(), stats: PrivacyStats::default() }
    }

    /// Replaces the settings.
    pub fn update_config(&mut self, new_config: PrivacyConfig)
        ensures
            final(self).config_spec() == new_config,
            final(self).wf() == old(self).wf(),
            final(self).hostname_cache_spec() == old(self).hostname_cache_spec(),
            final(self).stats_spec() == old(self).stats_spec(),
    {
        self.config = new_config;
    }

    /// The settings.
    pub fn get_config(&self) -> (c: PrivacyConfig)
        ensures
            c == self.config_spec(),
    {
        self.config
    }

    /// Processes a payload: masks IPv4-looking addresses (when IP masking is on);
    /// from Medium level on, prepends 10 to 500 random bytes (when padding is
    /// on); from High level on, inserts 16 random bytes at least 10 bytes from
    /// either end of data longer than 100 bytes (when obfuscation is on).
    /// Counts the request and the bytes produced.
    pub fn process_data(&mut self, data: &[u8], context: &RequestContext) -> (r: Vec<u8>)
        requires
            old(self).stats_spec().requests_processed < u64::MAX,
            old(self).stats_spec().bytes_processed + processed_bound(old(self).config_spec(), data@) <= u64::MAX,
        ensures
            exists|pad: Seq<u8>, pos: int, chunk: Seq<u8>|
                #![trigger processed_data(old(self).config_spec(), data@, pad, pos, chunk)]
                valid_choices(old(self).config_spec(), data@, pad, pos, chunk) && r@ == processed_data(
                    old(self).config_spec(),
                    data@,
                    pad,
                    pos,
                    chunk,
                ),
            final(self).config_spec() == old(self).config_spec(),
            final(self).wf() == old(self).wf(),
            final(self).hostname_cache_spec() == old(self).hostname_cache_spec(),
            final(self).stats_spec() == (PrivacyStats {
                requests_processed: (old(self).stats_spec().requests_processed + 1) as u64,
                bytes_processed: (old(self).stats_spec().bytes_processed + r@.len()) as u64,
                ..old(self).stats_spec()
            }),
    {
        let config = self.config;
        let masked = if config.ip_masking {
            mask_ip_addresses(data)
        } else {
            vstd::slice::slice_to_vec(data)
        };
        let pad_len = random_in_inclusive(10, 500);
        let pad = if config.level != PrivacyLevel::Low && config.use_padding {
            random_bytes(pad_len)
        } else {
            let mut z: Vec<u8> = Vec::new();
            let mut i: usize = 0;
            while i < 10
                invariant
                    i <= 10,
                    z@.len() == i,
                decreases 10 - i,
            {
                z.push(0);
                i = i + 1;
            }
            z
        };
        let ghost pad_view = pad@;
        let padded = if config.level != PrivacyLevel::Low && config.use_padding {
            prepend_padding(pad, masked)
        } else {
            masked
        };
        proof {
            assert(padded@ == padded_data(config, data@, pad_view));
            if config.ip_masking {
                assert(mask_bytes(data@).len() + 500 <= processed_bound(config, data@));
            }
        }
        let chunk = random_bytes(16);
        let level_rank = config.level.rank();
        let out = if level_rank >= 2 && config.traffic_obfuscation && padded.len() > 100 {
            let pos = random_in_exclusive(10, padded.len() - 10);
            let r = insert_chunk(&padded, pos, &chunk);
            proof {
                assert(valid_choices(config, data@, pad_view, pos as int, chunk@));
                assert(r@ == processed_data(config, data@, pad_view, pos as int, chunk@));
            }
            r
        } else {
            proof {
                assert(valid_choices(config, data@, pad_view, 10, chunk@));
                assert(padded@ == processed_data(config, data@, pad_view, 10, chunk@));
            }
            padded
        };
        self.stats.requests_processed = self.stats.requests_processed + 1;
        self.stats.bytes_processed = self.stats.bytes_processed + out.len() as u64;
        out
    }

    /// The anonymous name of a host: the cached one when the host was seen;
    /// otherwise ".onion" names stay as they are and other names become
    /// "anon-<hash in hex>.nexlink" (the `DefaultHasher` hash of the name); the
    /// name is cached and counted.
    pub fn anonymize_hostname(&mut self, hostname: &str) -> (r: String)
        requires
            old(self).wf(),
            old(self).stats_spec().anonymized_hosts < u64::MAX,
        ensures
            final(self).wf(),
            final(self).config_spec() == old(self).config_spec(),
            anonymize_post(*old(self), *final(self), hostname@, r@),
    {
        let key = owned(hostname);
        if let Some(cached) = self.hostname_cache.get(&key) {
            return cached.clone();
        }
        let anon = if ends_with_text(hostname, ".onion") {
            owned(hostname)
        } else {
            anonymous_host_name(simple_hash(hostname))
        };
        let k = owned(hostname);
        let ghost kv = k@;
        self.hostname_cache.insert(k, anon.clone());
        proof {
            assert(self.hostname_cache@.remove(kv) =~= old(self).hostname_cache@);
        }
        self.stats.anonymized_hosts = self.stats.anonymized_hosts + 1;
        anon
    }

    /// Protects a request: its host name is anonymized; from Medium level on,
    /// sensitive headers are removed; from High level on, "Sec-CH-UA" and
    /// "X-Requested-With" are set to "Anonymous".
    pub fn process_request_context(&mut self, context: RequestContext) -> (r: RequestContext)
        requires
            old(self).wf(),
            context.headers.wf(),
            old(self).stats_spec().anonymized_hosts < u64::MAX,
        ensures
            final(self).wf(),
            r.headers.wf(),
            final(self).config_spec() == old(self).config_spec(),
            r.method == context.method && r.url == context.url && r.client_ip == context.client_ip
                && r.user_agent == context.user_agent && r.referer == context.referer,
            context.hostname is None ==> r.hostname is None && final(self).hostname_cache_spec() == old(
                self,
            ).hostname_cache_spec(),
            context.hostname matches Some(h) ==> r.hostname matches Some(a) && final(self).hostname_cache_spec().contains_key(h@)
                && final(self).hostname_cache_spec()[h@]@ == a@,
            ({
                let rank = old(self).config_spec().level.rank_spec();
                let kept = if rank >= 1 {
                    without_sensitive(context.headers@)
                } else {
                    context.headers@
                };
                &&& rank >= 2 ==> r.headers@.dom() == kept.dom().insert("Sec-CH-UA"@).insert("X-Requested-With"@)
                    && r.headers@["Sec-CH-UA"@]@ == "Anonymous"@ && r.headers@["X-Requested-With"@]@ == "Anonymous"@
                    && forall|k: Seq<char>| #[trigger] kept.contains_key(k) && k != "Sec-CH-UA"@ && k != "X-Requested-With"@
                        ==> r.headers@[k] == kept[k]
                &&& rank < 2 ==> r.headers@ == kept
            }),
    {
        let mut context = context;
        let hostname = context.hostname;
        context.hostname = match hostname {
            Some(h) => Some(self.anonymize_hostname(h.as_str())),
            None => None,
        };
        let level = self.config.level;
        if level.at_least(&PrivacyLevel::Medium) {
            remove_sensitive_headers(&mut context.headers);
        }
        if level.at_least(&PrivacyLevel::High) {
            context.headers.insert("Sec-CH-UA".to_owned(), "Anonymous".to_owned());
            context.headers.insert("X-Requested-With".to_owned(), "Anonymous".to_owned());
        }
        context
    }

    /// The counters.
    pub fn get_stats(&self) -> (s: PrivacyStats)
        ensures
            s == self.stats_spec(),
    {
        self.stats
    }

    /// Sets every counter to zero.
    pub fn reset_stats(&mut self)
        ensures
            final(self).stats_spec() == PrivacyStats::default_spec(),
            final(self).config_spec() == old(self).config_spec(),
            final(self).hostname_cache_spec() == old(self).hostname_cache_spec(),
            final(self).wf() == old(self).wf(),
    {
        self.stats = PrivacyStats::default();
    }

    /// The proxy mode.
    pub fn get_proxy_mode(&self) -> (m: ProxyMode)
        ensures
            m == self.config_spec().proxy_mode,
    {
        self.config.proxy_mode
    }

    /// Sets the proxy mode.
    pub fn set_proxy_mode(&mut self, mode: ProxyMode)
        ensures
            final(self).config_spec() == (PrivacyConfig { proxy_mode: mode, ..old(self).config_spec() }),
            final(self).hostname_cache_spec() == old(self).hostname_cache_spec(),
            final(self).stats_spec() == old(self).stats_spec(),
            final(self).wf() == old(self).wf(),
    {
        self.config.proxy_mode = mode;
    }
}

/// What anonymizing `host` does (see `PrivacyProcessor::anonymize_hostname`):
/// `before` and `after` are the processor before and after, `r` the name
/// returned.
pub open spec fn anonymize_post(before: PrivacyProcessor, after: PrivacyProcessor, host: Seq<char>, r: Seq<char>) -> bool {
    &&& after.config_spec() == before.config_spec()
    &&& before.hostname_cache_spec().contains_key(host) ==> {
        &&& r == before.hostname_cache_spec()[host]@
        &&& after.hostname_cache_spec() == before.hostname_cache_spec()
        &&& after.stats_spec() == before.stats_spec()
    }
    &&& !before.hostname_cache_spec().contains_key(host) ==> {
        &&& has_suffix(host, ".onion"@) ==> r == host
        &&& !has_suffix(host, ".onion"@) ==> r == anonymous_name(default_str_hash(host))
        &&& after.hostname_cache_spec().contains_key(host)
        &&& after.hostname_cache_spec()[host]@ == r
        &&& after.hostname_cache_spec().remove(host) == before.hostname_cache_spec()
        &&& after.stats_spec() == (PrivacyStats {
            anonymized_hosts: (before.stats_spec().anonymized_hosts + 1) as u64,
            ..before.stats_spec()
        })
    }
}

/// Anonymizing a host a second time gives the name it got the first time.
pub proof fn lemma_anonymize_stable(
    p0: PrivacyProcessor,
    p1: PrivacyProcessor,
    p2: PrivacyProcessor,
    host: Seq<char>,
    r1: Seq<char>,
    r2: Seq<char>,
)
    requires
        anonymize_post(p0, p1, host, r1),
        anonymize_post(p1, p2, host, r2),
    ensures
        r1 == r2,
        p2.hostname_cache_spec() == p1.hostname_cache_spec(),
{
}

impl PrivacyStats {
    /// All zero.
    pub open spec fn default_spec() -> PrivacyStats {
        PrivacyStats { requests_processed: 0, bytes_processed: 0, anonymized_hosts: 0, obfuscated_connections: 0 }
    }
}

/// The headers removed as identifying the client are, whatever their case,
/// exactly "authorization", "cookie", "x-forwarded-for", "x-real-ip",
/// "x-originating-ip", "cf-connecting-ip", "true-client-ip", "x-client-ip",
/// "x-cluster-client-ip", "via" and "user-agent".
pub proof fn lemma_sensitive_headers_listed(header: Seq<char>)
    ensures
        is_sensitive(header) <==> {
            let l = lowercase_text(header);
            ||| l == "authorization"@
            ||| l == "cookie"@
            ||| l == "x-forwarded-for"@
            ||| l == "x-real-ip"@
            ||| l == "x-originating-ip"@
            ||| l == "cf-connecting-ip"@
            ||| l == "true-client-ip"@
            ||| l == "x-client-ip"@
            ||| l == "x-cluster-client-ip"@
            ||| l == "via"@
            ||| l == "user-agent"@
        },
{
    let s = sensitive_headers();
    let l = lowercase_text(header);
    assert(s[0] == "authorization"@);
    assert(s[1] == "cookie"@);
    assert(s[2] == "x-forwarded-for"@);
    assert(s[3] == "x-real-ip"@);
    assert(s[4] == "x-originating-ip"@);
    assert(s[5] == "cf-connecting-ip"@);
    assert(s[6] == "true-client-ip"@);
    assert(s[7] == "x-client-ip"@);
    assert(s[8] == "x-cluster-client-ip"@);
    assert(s[9] == "via"@);
    assert(s[10] == "user-agent"@);
    if s.contains(l) {
        let i = choose|i: int| 0 <= i < s.len() && s[i] == l;
        assert(0 <= i < 11);
    }
}

/// Traffic obfuscation inserts a chunk at the High and Ultra levels (when it is
/// enabled and the padded data is longer than 100 bytes) and never at Low or
/// Medium; the chunk makes the output 16 bytes longer than the padded data.
pub proof fn lemma_obfuscation_levels(
    config: PrivacyConfig,
    data: Seq<u8>,
    pad: Seq<u8>,
    pos: int,
    chunk: Seq<u8>,
)
    requires
        valid_choices(config, data, pad, pos, chunk),
    ensures
        ({
            let padded = padded_data(config, data, pad);
            let out = processed_data(config, data, pad, pos, chunk);
            &&& (config.level == PrivacyLevel::High || config.level == PrivacyLevel::Ultra) && config.traffic_obfuscation
                && padded.len() > 100 ==> out.len() == padded.len() + 16
            &&& (config.level == PrivacyLevel::Low || config.level == PrivacyLevel::Medium || !config.traffic_obfuscation
                || padded.len() <= 100) ==> out == padded
        }),
{
}

} // verus!
