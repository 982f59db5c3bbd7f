//! Configuration entities read by the data plane.
//!
//! Identifiers are 128-bit UUID values held as `u128`; timestamps are UTC
//! milliseconds since the Unix epoch.
use vstd::prelude::*;

use crate::text::upper_of;
use crate::text::uppercase;

verus! {

/// HTTP method of a route.
#[allow(non_camel_case_types, clippy::upper_case_acronyms)]
#[derive(Clone, Copy, Debug, PartialEq, Eq, Structural)]
pub enum HttpMethod {
    GET,
    POST,
    PUT,
    DELETE,
    PATCH,
    HEAD,
    OPTIONS,
}

impl HttpMethod {
    /// Canonical (upper-case) name.
    pub open spec fn text(self) -> Seq<char> {
        match self {
            HttpMethod::GET => seq!['G', 'E', 'T'],
            HttpMethod::POST => seq!['P', 'O', 'S', 'T'],
            HttpMethod::PUT => seq!['P', 'U', 'T'],
            HttpMethod::DELETE => seq!['D', 'E', 'L', 'E', 'T', 'E'],
            HttpMethod::PATCH => seq!['P', 'A', 'T', 'C', 'H'],
            HttpMethod::HEAD => seq!['H', 'E', 'A', 'D'],
            HttpMethod::OPTIONS => seq!['O', 'P', 'T', 'I', 'O', 'N', 'S'],
        }
    }

    /// Canonical name of the method.
    pub fn as_str(&self) -> (r: &'static str)
        ensures
            r@ == self.text(),
    {
        proof {
            reveal_strlit("GET");
            reveal_strlit("POST");
            reveal_strlit("PUT");
            reveal_strlit("DELETE");
            reveal_strlit("PATCH");
            reveal_strlit("HEAD");
            reveal_strlit("OPTIONS");
        }
        let r = match self {
            HttpMethod::GET => "GET",
            HttpMethod::POST => "POST",
            HttpMethod::PUT => "PUT",
            HttpMethod::DELETE => "DELETE",
            HttpMethod::PATCH => "PATCH",
            HttpMethod::HEAD => "HEAD",
            HttpMethod::OPTIONS => "OPTIONS",
        };
        assert(r@ =~= self.text());
        r
    }

    /// The method whose canonical name is `upper`, if any.
    pub fn from_upper(upper: &str) -> (r: Option<HttpMethod>)
        ensures
            r matches Some(m) ==> m.text() == upper@,
            r is None ==> forall|m: HttpMethod| m.text() != upper@,
    {
        let all = [
            HttpMethod::GET,
            HttpMethod::POST,
            HttpMethod::PUT,
            HttpMethod::DELETE,
            HttpMethod::PATCH,
            HttpMethod::HEAD,
            HttpMethod::OPTIONS,
        ];
        let mut i: usize = 0;
        while i < 7
            invariant
                0 <= i <= 7,
                all@ == seq![
                    HttpMethod::GET,
                    HttpMethod::POST,
                    HttpMethod::PUT,
                    HttpMethod::DELETE,
                    HttpMethod::PATCH,
                    HttpMethod::HEAD,
                    HttpMethod::OPTIONS,
                ],
                forall|j: int| 0 <= j < i ==> all@[j].text() != upper@,
            decreases 7 - i,
        {
            let m = all[i];
            if crate::text::same_text(m.as_str(), upper) {
                return Some(m);
            }
            i = i + 1;
        }
        assert forall|m: HttpMethod| m.text() != upper@ by {
            match m {
                HttpMethod::GET => assert(all@[0] == m),
                HttpMethod::POST => assert(all@[1] == m),
                HttpMethod::PUT => assert(all@[2] == m),
                HttpMethod::DELETE => assert(all@[3] == m),
                HttpMethod::PATCH => assert(all@[4] == m),
                HttpMethod::HEAD => assert(all@[5] == m),
                HttpMethod::OPTIONS => assert(all@[6] == m),
            }
        }
        None
    }

    /// Parses a method name in any letter case.
    pub fn parse(s: &str) -> (r: Result<HttpMethod, String>)
        ensures
            r matches Ok(m) ==> m.text() == upper_of(s@),
            r is Err ==> forall|m: HttpMethod| m.text() != upper_of(s@),
    {
        let upper = uppercase(s);
        match HttpMethod::from_upper(upper.as_str()) {
            Some(m) => Ok(m),
            None => {
                let mut msg = String::from_str("Invalid HTTP method: ");
                msg.append(s);
                Err(msg)
            },
        }
    }
}

/// Which request attribute partitions a rate limit's counters.
#[derive(Clone, Copy, Debug, PartialEq, Eq, Structural)]
pub enum IdentifierType {
    Ip,
    ApiKey,
    UserId,
    Global,
}

impl IdentifierType {
    /// Stored name of the identifier type.
    pub open spec fn text(self) -> Seq<char> {
        match self {
            IdentifierType::Ip => seq!['i', 'p'],
            IdentifierType::ApiKey => seq!['a', 'p', 'i', '_', 'k', 'e', 'y'],
            IdentifierType::UserId => seq!['u', 's', 'e', 'r', '_', 'i', 'd'],
            IdentifierType::Global => seq!['g', 'l', 'o', 'b', 'a', 'l'],
        }
    }

    /// Stored name of the identifier type.
    pub fn as_str(&self) -> (r: &'static str)
        ensures
            r@ == self.text(),
    {
        proof {
            reveal_strlit("ip");
            reveal_strlit("api_key");
            reveal_strlit("user_id");
            reveal_strlit("global");
        }
        let r = match self {
            IdentifierType::Ip => "ip",
            IdentifierType::ApiKey => "api_key",
            IdentifierType::UserId => "user_id",
            IdentifierType::Global => "global",
        };
        assert(r@ =~= self.text());
        r
    }
}

/// Kind of a whitelist rule.
#[derive(Clone, Copy, Debug, PartialEq, Eq, Structural)]
pub enum RuleType {
    Ip,
    ApiKey,
    Jwt,
    Custom,
}

impl RuleType {
    /// Stored name of the rule type.
    pub open spec fn text(self) -> Seq<char> {
        match self {
            RuleType::Ip => seq!['i', 'p'],
            RuleType::ApiKey => seq!['a', 'p', 'i', '_', 'k', 'e', 'y'],
            RuleType::Jwt => seq!['j', 'w', 't'],
            RuleType::Custom => seq!['c', 'u', 's', 't', 'o', 'm'],
        }
    }

    /// Stored name of the rule type.
    pub fn as_str(&self) -> (r: &'static str)
        ensures
            r@ == self.text(),
    {
        proof {
            reveal_strlit("ip");
            reveal_strlit("api_key");
            reveal_strlit("jwt");
            reveal_strlit("custom");
        }
        let r = match self {
            RuleType::Ip => "ip",
            RuleType::ApiKey => "api_key",
            RuleType::Jwt => "jwt",
            RuleType::Custom => "custom",
        };
        assert(r@ =~= self.text());
        r
    }
}

/// Load-balancing algorithm recorded for a backend service.
#[derive(Clone, Copy, Debug, PartialEq, Eq, Structural)]
pub enum LoadBalancerAlgorithm {
    RoundRobin,
    LeastConn,
    IpHash,
    Weighted,
}

impl LoadBalancerAlgorithm {
    /// Stored name of the algorithm.
    pub open spec fn text(self) -> Seq<char> {
        match self {
            LoadBalancerAlgorithm::RoundRobin => seq!['r', 'o', 'u', 'n', 'd', '_', 'r', 'o', 'b', 'i', 'n'],
            LoadBalancerAlgorithm::LeastConn => seq!['l', 'e', 'a', 's', 't', '_', 'c', 'o', 'n', 'n'],
            LoadBalancerAlgorithm::IpHash => seq!['i', 'p', '_', 'h', 'a', 's', 'h'],
            LoadBalancerAlgorithm::Weighted => seq!['w', 'e', 'i', 'g', 'h', 't', 'e', 'd'],
        }
    }

    /// Stored name of the algorithm.
    pub fn as_str(&self) -> (r: &'static str)
        ensures
            r@ == self.text(),
    {
        proof {
            reveal_strlit("round_robin");
            reveal_strlit("least_conn");
            reveal_strlit("ip_hash");
            reveal_strlit("weighted");
        }
        let r = match self {
            LoadBalancerAlgorithm::RoundRobin => "round_robin",
            LoadBalancerAlgorithm::LeastConn => "least_conn",
            LoadBalancerAlgorithm::IpHash => "ip_hash",
            LoadBalancerAlgorithm::Weighted => "weighted",
        };
        assert(r@ =~= self.text());
        r
    }
}

/// An upstream HTTP service.
#[derive(Debug)]
pub struct BackendService {
    pub id: u128,
    pub name: String,
    pub description: Option<String>,
    /// Absolute URL with scheme `http` or `https`.
    pub base_url: String,
    /// Absolute URL, or a path relative to `base_url`.
    pub health_check_url: Option<String>,
    pub health_check_interval_seconds: Option<i32>,
    pub timeout_ms: Option<i32>,
    pub is_active: bool,
    pub created_at: i64,
    pub updated_at: i64,
}

impl BackendService {
    /// A service takes traffic only while it is active.
    pub fn is_healthy(&self) -> (r: bool)
        ensures
            r == self.is_active,
    {
        self.is_active
    }
}

/// A `(method, path_pattern)` pair pointing at one backend service.
#[derive(Debug)]
pub struct ApiRoute {
    pub id: u128,
    pub path_pattern: String,
    pub method: HttpMethod,
    pub backend_service_id: u128,
    pub strip_path_prefix: bool,
    pub preserve_host_header: bool,
    pub timeout_ms: Option<i32>,
    pub is_active: bool,
    /// Higher wins among matching routes.
    pub priority: i32,
    /// Opaque JSON text.
    pub metadata: String,
    pub created_at: i64,
    pub updated_at: i64,
}

/// A rate limit; `api_route_id == None` makes it global.
#[derive(Debug)]
pub struct RateLimit {
    pub id: u128,
    pub name: String,
    pub api_route_id: Option<u128>,
    pub max_requests: i32,
    pub window_seconds: i32,
    pub identifier_type: IdentifierType,
    pub is_active: bool,
    /// Present: token bucket; absent: sliding window.
    pub burst_size: Option<i32>,
    pub created_at: i64,
    pub updated_at: i64,
}

/// The parts of a whitelist rule's configuration that rules consult.
///
/// A list is `None` when the key is missing or does not hold an array; it
/// holds the string members of the array otherwise.
#[derive(Debug)]
pub struct RuleConfig {
    pub allowed_ips: Option<Vec<String>>,
    pub allowed_keys: Option<Vec<String>>,
}

/// An access-control rule; `api_route_id == None` makes it global.
#[derive(Debug)]
pub struct WhitelistRule {
    pub id: u128,
    pub rule_name: String,
    pub rule_type: RuleType,
    pub api_route_id: Option<u128>,
    pub config: RuleConfig,
    pub is_active: bool,
    /// Higher rules are evaluated first.
    pub priority: i32,
    pub created_at: i64,
    pub updated_at: i64,
}

/// A copy of a string list that Verus knows to be equal to it.
pub fn copy_strings(v: &Vec<String>) -> (r: Vec<String>)
    ensures
        r@ == v@,
{
    let mut out: Vec<String> = Vec::new();
    let mut i: usize = 0;
    while i < v.len()
        invariant
            i <= v@.len(),
            out@ == v@.subrange(0, i as int),
        decreases v@.len() - i,
    {
        out.push(v[i].clone());
        assert(out@ =~= v@.subrange(0, i + 1));
        i = i + 1;
    }
    assert(out@ =~= v@);
    out
}

fn copy_opt_strings(v: &Option<Vec<String>>) -> (r: Option<Vec<String>>)
    ensures
        r is None <==> v is None,
        r matches Some(x) ==> x@ == v->0@,
{
    match v {
        Some(x) => Some(copy_strings(x)),
        None => None,
    }
}

fn copy_opt_string(v: &Option<String>) -> (r: Option<String>)
    ensures
        r == *v,
{
    match v {
        Some(x) => Some(x.clone()),
        None => None,
    }
}

impl RuleConfig {
    /// Field-wise equality over the lists' contents.
    pub open spec fn same_as(self, o: RuleConfig) -> bool {
        &&& (self.allowed_ips is None <==> o.allowed_ips is None)
        &&& (self.allowed_ips matches Some(a) ==> a@ == o.allowed_ips->0@)
        &&& (self.allowed_keys is None <==> o.allowed_keys is None)
        &&& (self.allowed_keys matches Some(a) ==> a@ == o.allowed_keys->0@)
    }

    /// A copy holding the same lists.
    pub fn duplicate(&self) -> (r: RuleConfig)
        ensures
            r.same_as(*self),
    {
        RuleConfig {
            allowed_ips: copy_opt_strings(&self.allowed_ips),
            allowed_keys: copy_opt_strings(&self.allowed_keys),
        }
    }
}

impl WhitelistRule {
    /// Equality of every field, lists compared by contents.
    pub open spec fn same_as(self, o: WhitelistRule) -> bool {
        &&& self.id == o.id
        &&& self.rule_name == o.rule_name
        &&& self.rule_type == o.rule_type
        &&& self.api_route_id == o.api_route_id
        &&& self.config.same_as(o.config)
        &&& self.is_active == o.is_active
        &&& self.priority == o.priority
        &&& self.created_at == o.created_at
        &&& self.updated_at == o.updated_at
    }

    /// A copy of the rule.
    pub fn duplicate(&self) -> (r: WhitelistRule)
        ensures
            r.same_as(*self),
    {
        WhitelistRule {
            id: self.id,
            rule_name: self.rule_name.clone(),
            rule_type: self.rule_type,
            api_route_id: self.api_route_id,
            config: self.config.duplicate(),
            is_active: self.is_active,
            priority: self.priority,
            created_at: self.created_at,
            updated_at: self.updated_at,
        }
    }
}

impl RateLimit {
    /// A copy of the limit.
    pub fn duplicate(&self) -> (r: RateLimit)
        ensures
            r == *self,
    {
        RateLimit {
            id: self.id,
            name: self.name.clone(),
            api_route_id: self.api_route_id,
            max_requests: self.max_requests,
            window_seconds: self.window_seconds,
            identifier_type: self.identifier_type,
            is_active: self.is_active,
            burst_size: self.burst_size,
            created_at: self.created_at,
            updated_at: self.updated_at,
        }
    }
}

impl BackendService {
    /// A copy of the service.
    pub fn duplicate(&self) -> (r: BackendService)
        ensures
            r == *self,
    {
        BackendService {
            id: self.id,
            name: self.name.clone(),
            description: copy_opt_string(&self.description),
            base_url: self.base_url.clone(),
            health_check_url: copy_opt_string(&self.health_check_url),
            health_check_interval_seconds: self.health_check_interval_seconds,
            timeout_ms: self.timeout_ms,
            is_active: self.is_active,
            created_at: self.created_at,
            updated_at: self.updated_at,
        }
    }
}

impl ApiRoute {
    /// A copy of the route.
    pub fn duplicate(&self) -> (r: ApiRoute)
        ensures
            r == *self,
    {
        ApiRoute {
            id: self.id,
            path_pattern: self.path_pattern.clone(),
            method: self.method,
            backend_service_id: self.backend_service_id,
            strip_path_prefix: self.strip_path_prefix,
            preserve_host_header: self.preserve_host_header,
            timeout_ms: self.timeout_ms,
            is_active: self.is_active,
            priority: self.priority,
            metadata: self.metadata.clone(),
            created_at: self.created_at,
            updated_at: self.updated_at,
        }
    }
}

} // verus!
