//! The per-request pipeline: route, whitelist, health check, rate limits and
//! upstream rewrite, with the responses the gateway writes itself.
//!
//! Each stage is a function of the snapshot, the request and what the caller
//! observed (the health entry, the limiter's decisions); the caller performs
//! the I/O between stages.
use vstd::prelude::*;

use crate::audit::AuditEventCategory;
use crate::audit::AuditEventType;
use crate::audit::AuditLog;
use crate::audit::AuditLogBuilder;
use crate::audit::AuditSeverity;
use crate::audit::MetaValue;
use crate::health::takes_traffic;
use crate::health::HealthChecker;
use crate::health::HealthStatus;
use crate::models::RateLimit;
use crate::rate_limiter::bucket_key_of;
use crate::rate_limiter::composite_key;
use crate::rate_limiter::sliding_key_of;
use crate::rate_limiter::LimitDecision;
use crate::rate_limiter::RateLimiter;
use crate::request::client_ip_of;
use crate::request::identifier_of;
use crate::request::RequestInfo;
use crate::router::rewritten_path;
use crate::router::routing;
use crate::router::Router;
use crate::snapshot::by_priority;
use crate::snapshot::limits_keyed;
use crate::snapshot::rules_keyed;
use crate::snapshot::GatewayConfig;
use crate::text::dec_text;
use crate::text::i64_text;
use crate::text::int_text;
use crate::text::opt_string;
use crate::text::u64_text;
use crate::text::upper_of;
use crate::whitelist::lemma_verdict_same;
use crate::whitelist::whitelist_verdict;
use crate::whitelist::WhitelistValidator;

verus! {

/// What `url::Url::parse` yields for `s`: `(scheme, host, port)`, with the
/// port only when it is not the scheme's default; `None` when `s` is not a URL.
pub uninterp spec fn url_parts(s: Seq<char>) -> Option<(Seq<char>, Option<Seq<char>>, Option<u16>)>;

/// Scheme, host and explicit port of a URL.
pub struct UrlParts {
    pub scheme: String,
    pub host: Option<String>,
    pub port: Option<u16>,
}

/// Relies on `url::Url::parse` and the accessors `scheme`, `host_str` and
/// `port` of its result; a function of the text alone.
#[verifier::external_body]
fn parse_url(s: &str) -> (r: Option<UrlParts>)
    ensures
        match url_parts(s@) {
            None => r is None,
            Some((sc, h, p)) => r matches Some(u) && u.scheme@ == sc && opt_string(u.host) == h
                && u.port == p,
        },
{
    match url::Url::parse(s) {
        Ok(u) => Some(
            UrlParts {
                scheme: u.scheme().to_string(),
                host: match u.host_str() {
                    Some(h) => Some(h.to_string()),
                    None => None,
                },
                port: u.port(),
            },
        ),
        Err(_) => None,
    }
}

/// A response written by the gateway itself. The transport adds
/// `Content-Length`.
#[derive(Debug)]
pub struct GatewayResponse {
    pub status: u16,
    pub headers: Vec<(String, String)>,
    pub body: String,
}

/// A short-circuit: the response, and the audit record to emit if any.
#[derive(Debug)]
pub struct Denial {
    pub response: GatewayResponse,
    pub audit: Option<AuditLog>,
}

/// Where the request is sent upstream.
#[derive(Debug)]
pub struct RequestContext {
    pub upstream_host: String,
    pub upstream_port: u16,
    /// Rewritten path followed by `?query` when the request has a query.
    pub upstream_path: String,
    /// Value for the `Host` header: the host, with `:port` when the base URL
    /// names a port.
    pub upstream_authority: String,
    pub use_tls: bool,
    pub preserve_host: bool,
    pub route_id: Option<u128>,
}

/// Indices of the route and service that serve a request.
#[derive(Clone, Copy, Debug, PartialEq, Eq, Structural)]
pub struct Routed {
    pub route: usize,
    pub service: usize,
}

/// One rate limit to check for a request.
#[derive(Debug)]
pub struct LimitCheck {
    pub limit: RateLimit,
    /// Value the request is counted under.
    pub identifier: String,
    /// Store key: `ratelimit:bucket:...` with a burst size, `ratelimit:...` without.
    pub key: String,
}

/// Outcome of the pipeline for one request: exactly one of a response
/// written by the gateway or a forward upstream.
#[derive(Debug)]
pub enum Outcome {
    Respond(Denial),
    Forward(RequestContext),
}

/// Terminal outcome of a request, as a value.
#[derive(Clone, Copy, Debug, PartialEq, Eq, Structural)]
pub enum Verdict {
    NotFound,
    Forbidden,
    Unavailable,
    /// The limit at this index denied.
    RateLimited(usize),
    BadUpstream,
    Forward,
}

/// Whitelist rules that apply to a route, highest priority first.
pub open spec fn route_rules(cfg: GatewayConfig, route_id: u128) -> Seq<crate::models::WhitelistRule> {
    by_priority(rules_keyed(cfg.whitelist_rules@, Some(route_id)) + rules_keyed(cfg.whitelist_rules@, None))
}

/// Rate limits that apply to a route: route-scoped, then global.
pub open spec fn route_limits(cfg: GatewayConfig, route_id: u128) -> Seq<RateLimit> {
    limits_keyed(cfg.rate_limits@, Some(route_id)) + limits_keyed(cfg.rate_limits@, None)
}

/// Index of the route that serves `req`.
pub open spec fn served_route(cfg: GatewayConfig, req: RequestInfo) -> int {
    let (ri, si) = routing(cfg, req.path@, upper_of(req.method@))->0;
    ri
}

/// Index of the service that serves `req`.
pub open spec fn served_service(cfg: GatewayConfig, req: RequestInfo) -> int {
    let (ri, si) = routing(cfg, req.path@, upper_of(req.method@))->0;
    si
}

/// Index of the first denying decision among the first `n`.
pub open spec fn first_denied(d: Seq<LimitDecision>, n: nat) -> Option<nat>
    decreases n,
{
    if n == 0 {
        None
    } else {
        match first_denied(d, (n - 1) as nat) {
            Some(i) => Some(i),
            None => if n - 1 < d.len() && !d[n - 1].allowed {
                Some((n - 1) as nat)
            } else {
                None
            },
        }
    }
}

/// The outcome of a request given the health entry of its service and the
/// limiter's decisions for the first `n_checks` applicable limits, in order.
pub open spec fn request_verdict(
    cfg: GatewayConfig,
    req: RequestInfo,
    entry: Option<HealthStatus>,
    decisions: Seq<LimitDecision>,
    n_checks: nat,
) -> Verdict {
    match routing(cfg, req.path@, upper_of(req.method@)) {
        None => Verdict::NotFound,
        Some((ri, si)) => {
            if !whitelist_verdict(route_rules(cfg, cfg.routes@[ri].id), req, client_ip_of(req)).0 {
                Verdict::Forbidden
            } else if cfg.services@[si].health_check_url is Some && !takes_traffic(entry) {
                Verdict::Unavailable
            } else if first_denied(decisions, n_checks) is Some {
                Verdict::RateLimited((first_denied(decisions, n_checks)->0) as usize)
            } else if url_parts(cfg.services@[si].base_url@) is None {
                Verdict::BadUpstream
            } else {
                Verdict::Forward
            }
        },
    }
}

/// HTTP status of a short-circuit.
pub open spec fn verdict_status(v: Verdict) -> u16 {
    match v {
        Verdict::NotFound => 404,
        Verdict::Forbidden => 403,
        Verdict::Unavailable => 503,
        Verdict::RateLimited(_) => 429,
        Verdict::BadUpstream => 500,
        Verdict::Forward => 0,
    }
}

/// Every request ends in exactly one outcome: it is forwarded exactly when it
/// routes, the whitelist admits it, its service has no health URL or is not
/// unhealthy, no checked
/// limit denies and the service URL parses; otherwise the first failing stage
/// decides the one response.
pub proof fn lemma_single_outcome(
    cfg: GatewayConfig,
    req: RequestInfo,
    entry: Option<HealthStatus>,
    decisions: Seq<LimitDecision>,
    n_checks: nat,
)
    ensures
        (request_verdict(cfg, req, entry, decisions, n_checks) == Verdict::Forward) <==> (
        routing(cfg, req.path@, upper_of(req.method@)) matches Some((ri, si))
            && whitelist_verdict(route_rules(cfg, cfg.routes@[ri].id), req, client_ip_of(req)).0
            && (cfg.services@[si].health_check_url is None || takes_traffic(entry))
            && (forall|i: int| 0 <= i < n_checks && i < decisions.len() ==> #[trigger] decisions[i].allowed)
            && url_parts(cfg.services@[si].base_url@) is Some),
        request_verdict(cfg, req, entry, decisions, n_checks) != Verdict::Forward ==> verdict_status(
            request_verdict(cfg, req, entry, decisions, n_checks),
        ) >= 400,
{
    lemma_first_denied(decisions, n_checks);
}

proof fn lemma_first_denied(d: Seq<LimitDecision>, n: nat)
    ensures
        first_denied(d, n) is None <==> (forall|i: int| 0 <= i < n && i < d.len() ==> #[trigger] d[i].allowed),
        first_denied(d, n) matches Some(k) ==> k < n && k < d.len() && !d[k as int].allowed,
    decreases n,
{
    if n > 0 {
        lemma_first_denied(d, (n - 1) as nat);
    }
}

/// The 404 response.
pub open spec fn is_not_found(r: GatewayResponse) -> bool {
    r.status == 404 && r.body@ == "Not Found"@ && r.headers@.len() == 0
}

/// A JSON response with the given status and body.
pub open spec fn is_json(r: GatewayResponse, status: u16, body: Seq<char>) -> bool {
    &&& r.status == status
    &&& r.body@ == body
    &&& r.headers@.len() == 1
    &&& r.headers@[0].0@ == "Content-Type"@
    &&& r.headers@[0].1@ == "application/json"@
}

/// The 403 response.
pub open spec fn is_forbidden(r: GatewayResponse) -> bool {
    is_json(r, 403, "{\"error\":\"Forbidden\",\"message\":\"Access denied by whitelist rules\"}"@)
}

/// The 503 response naming a service.
pub open spec fn is_unavailable(r: GatewayResponse, name: Seq<char>) -> bool {
    is_json(
        r,
        503,
        "{\"error\":\"Service Unavailable\",\"message\":\"Backend service "@ + name
            + " is currently unhealthy\"}"@,
    )
}

/// The 500 response for a backend URL that does not parse.
pub open spec fn is_bad_upstream(r: GatewayResponse) -> bool {
    is_json(r, 500, "{\"error\":\"Internal Server Error\",\"message\":\"Invalid backend URL\"}"@)
}

/// The 429 response for `limit` with reset time `reset`.
pub open spec fn is_rate_limited(r: GatewayResponse, limit: RateLimit, reset: u64) -> bool {
    &&& r.status == 429
    &&& r.headers@.len() == 5
    &&& r.headers@[0].0@ == "Content-Type"@ && r.headers@[0].1@ == "application/json"@
    &&& r.headers@[1].0@ == "X-RateLimit-Limit"@ && r.headers@[1].1@ == int_text(limit.max_requests as int)
    &&& r.headers@[2].0@ == "X-RateLimit-Remaining"@ && r.headers@[2].1@ == "0"@
    &&& r.headers@[3].0@ == "X-RateLimit-Reset"@ && r.headers@[3].1@ == dec_text(reset as nat)
    &&& r.headers@[4].0@ == "Retry-After"@ && r.headers@[4].1@ == int_text(limit.window_seconds as int)
    &&& r.body@ == "{\"error\":\"Rate limit exceeded\",\"retry_after\":"@ + int_text(
        limit.window_seconds as int,
    ) + ",\"limit\":\""@ + limit.name@ + "\"}"@
}

/// The response for a request that matches no route.
pub fn not_found_response() -> (r: GatewayResponse)
    ensures
        is_not_found(r),
{
    GatewayResponse { status: 404, headers: Vec::new(), body: String::from_str("Not Found") }
}

fn json_header() -> (r: (String, String))
    ensures
        r.0@ == "Content-Type"@,
        r.1@ == "application/json"@,
{
    (String::from_str("Content-Type"), String::from_str("application/json"))
}

/// The response for a request the whitelist denies.
pub fn forbidden_response() -> (r: GatewayResponse)
    ensures
        is_forbidden(r),
{
    let mut headers: Vec<(String, String)> = Vec::new();
    headers.push(json_header());
    GatewayResponse {
        status: 403,
        headers,
        body: String::from_str("{\"error\":\"Forbidden\",\"message\":\"Access denied by whitelist rules\"}"),
    }
}

/// The response for a request whose backend service is unhealthy.
pub fn unavailable_response(service_name: &str) -> (r: GatewayResponse)
    ensures
        is_unavailable(r, service_name@),
{
    let mut headers: Vec<(String, String)> = Vec::new();
    headers.push(json_header());
    let mut body = String::from_str("{\"error\":\"Service Unavailable\",\"message\":\"Backend service ");
    body.append(service_name);
    body.append(" is currently unhealthy\"}");
    GatewayResponse { status: 503, headers, body }
}

/// The response for a request whose backend URL cannot be parsed.
pub fn bad_upstream_response() -> (r: GatewayResponse)
    ensures
        is_bad_upstream(r),
{
    let mut headers: Vec<(String, String)> = Vec::new();
    headers.push(json_header());
    GatewayResponse {
        status: 500,
        headers,
        body: String::from_str("{\"error\":\"Internal Server Error\",\"message\":\"Invalid backend URL\"}"),
    }
}

/// The response for a request a limit denies.
pub fn rate_limited_response(limit: &RateLimit, reset: u64) -> (r: GatewayResponse)
    ensures
        is_rate_limited(r, *limit, reset),
{
    let mut headers: Vec<(String, String)> = Vec::new();
    headers.push(json_header());
    headers.push((String::from_str("X-RateLimit-Limit"), i64_text(limit.max_requests as i64)));
    headers.push((String::from_str("X-RateLimit-Remaining"), String::from_str("0")));
    headers.push((String::from_str("X-RateLimit-Reset"), u64_text(reset)));
    let window = i64_text(limit.window_seconds as i64);
    headers.push((String::from_str("Retry-After"), window.clone()));
    let mut body = String::from_str("{\"error\":\"Rate limit exceeded\",\"retry_after\":");
    body.append(window.as_str());
    body.append(",\"limit\":\"");
    body.append(limit.name.as_str());
    body.append("\"}");
    GatewayResponse { status: 429, headers, body }
}

fn text_or(s: &Option<String>, default: &str) -> (r: String)
    ensures
        s matches Some(x) ==> r@ == x@,
        s is None ==> r@ == default@,
{
    match s {
        Some(x) => x.clone(),
        None => String::from_str(default),
    }
}

/// `r` is the audit record of a whitelist denial of `req` on route `route_id`.
pub open spec fn is_whitelist_record(r: AuditLog, req: RequestInfo, route_id: u128) -> bool {
    &&& r.event_type@ == "whitelist_denied"@
    &&& r.event_category@ == "whitelist"@
    &&& r.severity@ == "warning"@
    &&& r.message@ == "Access denied by whitelist rules for "@ + req.method@ + " "@ + req.path@
    &&& r.request_method == Some(req.method)
    &&& r.request_path == Some(req.path)
    &&& opt_string(r.client_ip) == Some(
        match client_ip_of(req) {
            Some(ip) => ip,
            None => "unknown"@,
        },
    )
    &&& opt_string(r.user_agent) == Some(
        match req.user_agent {
            Some(u) => u@,
            None => ""@,
        },
    )
    &&& r.api_route_id == Some(route_id)
    &&& r.backend_service_id is None
    &&& r.metadata@.len() == 0
    &&& r.status_code == Some(403i32)
}

/// `r` is the audit record of a denial of `req` on route `route_id` by the
/// limit of `check`.
pub open spec fn is_rate_limit_record(r: AuditLog, req: RequestInfo, route_id: u128, check: LimitCheck) -> bool {
    &&& r.event_type@ == "rate_limit_exceeded"@
    &&& r.event_category@ == "rate_limit"@
    &&& r.severity@ == "warning"@
    &&& r.message@ == "Rate limit '"@ + check.limit.name@ + "' exceeded for "@ + req.method@ + " "@
            + req.path@ + " (identifier: "@ + check.identifier@ + ")"@
    &&& r.request_method == Some(req.method)
    &&& r.request_path == Some(req.path)
    &&& opt_string(r.client_ip) == Some(
        match client_ip_of(req) {
            Some(ip) => ip,
            None => ""@,
        },
    )
    &&& opt_string(r.user_agent) == Some(
        match req.user_agent {
            Some(u) => u@,
            None => ""@,
        },
    )
    &&& r.api_route_id == Some(route_id)
    &&& r.backend_service_id is None
    &&& r.metadata@.len() == 5
    &&& r.metadata@[0].0@ == "limit_name"@ && r.metadata@[0].1 == MetaValue::Text(check.limit.name)
    &&& r.metadata@[1].0@ == "identifier_type"@ && (r.metadata@[1].1 matches MetaValue::Text(t)
            && t@ == check.limit.identifier_type.text())
    &&& r.metadata@[2].0@ == "identifier"@ && r.metadata@[2].1 == MetaValue::Text(check.identifier)
    &&& r.metadata@[3].0@ == "max_requests"@ && r.metadata@[3].1 == MetaValue::Number(
            check.limit.max_requests as i64,
        )
    &&& r.metadata@[4].0@ == "window_seconds"@ && r.metadata@[4].1 == MetaValue::Number(
            check.limit.window_seconds as i64,
        )
    &&& r.status_code == Some(429i32)
}

/// The audit record of a whitelist denial.
pub fn whitelist_denial_record(req: &RequestInfo, route_id: u128) -> (r: AuditLog)
    ensures
        is_whitelist_record(r, *req, route_id),
{
    let mut msg = String::from_str("Access denied by whitelist rules for ");
    msg.append(req.method.as_str());
    msg.append(" ");
    msg.append(req.path.as_str());
    let ip = text_or(&req.client_ip(), "unknown");
    let ua = text_or(&req.user_agent, "");
    AuditLogBuilder::new(
        AuditEventType::WhitelistDenied,
        AuditEventCategory::Whitelist,
        AuditSeverity::Warning,
        msg,
    ).request_method(req.method.clone()).request_path(req.path.clone()).client_ip(ip).user_agent(
        ua,
    ).api_route_id(route_id).status_code(403).build()
}

/// The audit record of a rate-limit denial.
pub fn rate_limit_denial_record(req: &RequestInfo, route_id: u128, check: &LimitCheck) -> (r: AuditLog)
    ensures
        is_rate_limit_record(r, *req, route_id, *check),
{
    let mut msg = String::from_str("Rate limit '");
    msg.append(check.limit.name.as_str());
    msg.append("' exceeded for ");
    msg.append(req.method.as_str());
    msg.append(" ");
    msg.append(req.path.as_str());
    msg.append(" (identifier: ");
    msg.append(check.identifier.as_str());
    msg.append(")");
    let mut metadata: Vec<(String, MetaValue)> = Vec::new();
    metadata.push((String::from_str("limit_name"), MetaValue::Text(check.limit.name.clone())));
    metadata.push(
        (
            String::from_str("identifier_type"),
            MetaValue::Text(String::from_str(check.limit.identifier_type.as_str())),
        ),
    );
    metadata.push((String::from_str("identifier"), MetaValue::Text(check.identifier.clone())));
    metadata.push(
        (String::from_str("max_requests"), MetaValue::Number(check.limit.max_requests as i64)),
    );
    metadata.push(
        (String::from_str("window_seconds"), MetaValue::Number(check.limit.window_seconds as i64)),
    );
    let ip = text_or(&req.client_ip(), "");
    let ua = text_or(&req.user_agent, "");
    AuditLogBuilder::new(
        AuditEventType::RateLimitExceeded,
        AuditEventCategory::RateLimit,
        AuditSeverity::Warning,
        msg,
    ).request_method(req.method.clone()).request_path(req.path.clone()).client_ip(ip).user_agent(
        ua,
    ).api_route_id(route_id).metadata(metadata).status_code(429).build()
}

/// Routing and whitelist: the route and service for the request, or the
/// 404 / 403 short-circuit (the latter with its audit record).
pub fn authorize(cfg: &GatewayConfig, req: &RequestInfo) -> (r: Result<Routed, Denial>)
    ensures
        match routing(*cfg, req.path@, upper_of(req.method@)) {
            None => match r {
                Err(d) => is_not_found(d.response) && d.audit is None,
                Ok(_) => false,
            },
            Some((ri, si)) => if whitelist_verdict(
                route_rules(*cfg, cfg.routes@[ri].id),
                *req,
                client_ip_of(*req),
            ).0 {
                match r {
                    Ok(x) => x.route == ri && x.service == si,
                    Err(_) => false,
                }
            } else {
                match r {
                    Err(d) => is_forbidden(d.response) && match d.audit {
                        Some(a) => is_whitelist_record(a, *req, cfg.routes@[ri].id),
                        None => false,
                    },
                    Ok(_) => false,
                }
            },
        },
{
    let routed = match route_indices(cfg, req.path.as_str(), req.method.as_str()) {
        Some(x) => x,
        None => {
            return Err(Denial { response: not_found_response(), audit: None });
        },
    };
    let route = &cfg.routes[routed.route];
    match Router::get_whitelist_rules(cfg, route.id) {
        Some(rules) => {
            let ip = req.client_ip();
            let ipref: Option<&str> = match &ip {
                Some(s) => Some(s.as_str()),
                None => None,
            };
            let (allowed, _name) = WhitelistValidator::validate_request(&rules, req, ipref);
            proof {
                lemma_verdict_same(rules@, route_rules(*cfg, route.id), *req, client_ip_of(*req));
                assert(crate::text::opt_text(ipref) == client_ip_of(*req));
            }
            if !allowed {
                return Err(
                    Denial {
                        response: forbidden_response(),
                        audit: Some(whitelist_denial_record(req, route.id)),
                    },
                );
            }
        },
        None => {},
    }
    Ok(routed)
}

/// Positions of the route and service that serve a request.
pub fn route_indices(cfg: &GatewayConfig, path: &str, method: &str) -> (r: Option<Routed>)
    ensures
        r is None <==> routing(*cfg, path@, upper_of(method@)) is None,
        r matches Some(x) ==> routing(*cfg, path@, upper_of(method@)) == Some(
            (x.route as int, x.service as int),
        ) && x.route < cfg.routes@.len() && x.service < cfg.services@.len(),
{
    let upper = crate::text::uppercase(method);
    let ri = match cfg.route_position(path, upper.as_str()) {
        Some(i) => i,
        None => return None,
    };
    let si = match cfg.service_position(cfg.routes[ri].backend_service_id) {
        Some(i) => i,
        None => return None,
    };
    proof {
        crate::snapshot::lemma_service_index_bound(cfg.services@, cfg.routes@[ri as int].backend_service_id);
    }
    if !cfg.services[si].is_active {
        return None;
    }
    Some(Routed { route: ri, service: si })
}

/// Health stage: the 503 short-circuit when the service has a health URL and
/// was last seen unhealthy; a service without a health URL always passes.
pub fn health_stage(cfg: &GatewayConfig, routed: Routed, entry: Option<HealthStatus>) -> (r: Result<(), Denial>)
    requires
        routed.service < cfg.services@.len(),
    ensures
        (cfg.services@[routed.service as int].health_check_url is None || takes_traffic(entry)) ==> r is Ok,
        !(cfg.services@[routed.service as int].health_check_url is None || takes_traffic(entry)) ==> match r {
            Err(d) => is_unavailable(d.response, cfg.services@[routed.service as int].name@)
                && d.audit is None,
            Ok(_) => false,
        },
{
    if cfg.services[routed.service].health_check_url.is_none() || HealthChecker::admits(entry) {
        Ok(())
    } else {
        Err(Denial { response: unavailable_response(cfg.services[routed.service].name.as_str()), audit: None })
    }
}

/// Store key a limit counts a request under.
pub open spec fn store_key_of(limit: RateLimit, route_id: u128, req: RequestInfo) -> Seq<char> {
    let k = composite_key(route_id, limit.identifier_type, identifier_of(req, limit.identifier_type));
    if limit.burst_size is Some {
        bucket_key_of(k)
    } else {
        sliding_key_of(k)
    }
}

/// The limits to check for a routed request, in evaluation order, each with
/// the request's identifier and the store key.
pub fn limit_checks(cfg: &GatewayConfig, req: &RequestInfo, routed: Routed) -> (r: Vec<LimitCheck>)
    requires
        routed.route < cfg.routes@.len(),
    ensures
        ({
            let route_id = cfg.routes@[routed.route as int].id;
            let all = route_limits(*cfg, route_id);
            &&& r@.len() == all.len()
            &&& forall|i: int| #![trigger r@[i]] 0 <= i < r@.len() ==> {
                &&& r@[i].limit == all[i]
                &&& r@[i].identifier@ == identifier_of(*req, all[i].identifier_type)
                &&& r@[i].key@ == store_key_of(all[i], route_id, *req)
            }
        }),
{
    let route_id = cfg.routes[routed.route].id;
    let limits = cfg.rate_limits_for(route_id);
    let mut out: Vec<LimitCheck> = Vec::new();
    let mut i: usize = 0;
    while i < limits.len()
        invariant
            i <= limits@.len(),
            limits@ == route_limits(*cfg, route_id),
            out@.len() == i,
            forall|j: int| #![trigger out@[j]] 0 <= j < i ==> {
                &&& out@[j].limit == limits@[j]
                &&& out@[j].identifier@ == identifier_of(*req, limits@[j].identifier_type)
                &&& out@[j].key@ == store_key_of(limits@[j], route_id, *req)
            },
        decreases limits@.len() - i,
    {
        let limit = limits[i].duplicate();
        let identifier = req.identifier(limit.identifier_type);
        let composite = RateLimiter::composite_key(route_id, limit.identifier_type, identifier.as_str());
        let key = match limit.burst_size {
            Some(_) => RateLimiter::bucket_key(composite.as_str()),
            None => RateLimiter::sliding_key(composite.as_str()),
        };
        let ghost before = out@;
        out.push(LimitCheck { limit, identifier, key });
        proof {
            assert forall|j: int| #![trigger out@[j]] 0 <= j < i + 1 implies {
                &&& out@[j].limit == limits@[j]
                &&& out@[j].identifier@ == identifier_of(*req, limits@[j].identifier_type)
                &&& out@[j].key@ == store_key_of(limits@[j], route_id, *req)
            } by {
                if j < i {
                    assert(out@[j] == before[j]);
                }
            }
        }
        i = i + 1;
    }
    out
}

/// Upstream host: the URL's host, `localhost` when it has none.
pub open spec fn host_of(parts: (Seq<char>, Option<Seq<char>>, Option<u16>)) -> Seq<char> {
    match parts.1 {
        Some(h) => h,
        None => "localhost"@,
    }
}

/// Upstream port: the URL's explicit port, else 443 for `https` and 80 otherwise.
pub open spec fn port_of(parts: (Seq<char>, Option<Seq<char>>, Option<u16>)) -> u16 {
    match parts.2 {
        Some(p) => p,
        None => if parts.0 == "https"@ {
            443
        } else {
            80
        },
    }
}

/// `Host` value for the upstream: the host, with `:port` when the URL names one.
pub open spec fn authority_of(parts: (Seq<char>, Option<Seq<char>>, Option<u16>)) -> Seq<char> {
    match parts.2 {
        Some(p) => host_of(parts) + seq![':'] + dec_text(p as nat),
        None => host_of(parts),
    }
}

/// Upstream path and query for a request under a route.
pub open spec fn upstream_target(route: crate::models::ApiRoute, req: RequestInfo) -> Seq<char> {
    rewritten_path(route, req.path@) + match req.query {
        Some(q) => seq!['?'] + q@,
        None => Seq::empty(),
    }
}

/// `c` sends `req` under `route` to the URL with the given parts.
pub open spec fn is_context_for(
    c: RequestContext,
    route: crate::models::ApiRoute,
    parts: (Seq<char>, Option<Seq<char>>, Option<u16>),
    req: RequestInfo,
) -> bool {
    &&& c.upstream_host@ == host_of(parts)
    &&& c.upstream_port == port_of(parts)
    &&& c.upstream_authority@ == authority_of(parts)
    &&& c.use_tls == (parts.0 == "https"@)
    &&& c.upstream_path@ == upstream_target(route, req)
    &&& c.preserve_host == route.preserve_host_header
    &&& c.route_id == Some(route.id)
}

/// Where a routed request goes upstream, or the 500 short-circuit when the
/// service's base URL does not parse.
pub fn upstream_context(cfg: &GatewayConfig, req: &RequestInfo, routed: Routed) -> (r: Result<RequestContext, Denial>)
    requires
        routed.route < cfg.routes@.len(),
        routed.service < cfg.services@.len(),
    ensures
        ({
            let route = cfg.routes@[routed.route as int];
            match url_parts(cfg.services@[routed.service as int].base_url@) {
                None => match r {
                    Err(d) => is_bad_upstream(d.response) && d.audit is None,
                    Ok(_) => false,
                },
                Some(parts) => match r {
                    Ok(c) => is_context_for(c, route, parts, *req),
                    Err(_) => false,
                },
            }
        }),
{
    let route = &cfg.routes[routed.route];
    let service = &cfg.services[routed.service];
    let parts = match parse_url(service.base_url.as_str()) {
        Some(p) => p,
        None => {
            return Err(Denial { response: bad_upstream_response(), audit: None });
        },
    };
    proof {
        reveal_strlit(":");
        reveal_strlit("?");
    }
    let use_tls = crate::text::same_text(parts.scheme.as_str(), "https");
    let host = match &parts.host {
        Some(h) => h.clone(),
        None => String::from_str("localhost"),
    };
    let port: u16 = match parts.port {
        Some(p) => p,
        None => if use_tls {
            443
        } else {
            80
        },
    };
    let mut authority = host.clone();
    match parts.port {
        Some(p) => {
            authority.append(":");
            let digits = u64_text(p as u64);
            authority.append(digits.as_str());
        },
        None => {},
    }
    let mut path = Router::transform_path(route, req.path.as_str());
    match &req.query {
        Some(q) => {
            path.append("?");
            path.append(q.as_str());
        },
        None => {},
    }
    proof {
        let p = url_parts(service.base_url@)->0;
        assert(authority@ =~= authority_of(p));
        assert(path@ =~= upstream_target(*route, *req));
    }
    Ok(
        RequestContext {
            upstream_host: host,
            upstream_port: port,
            upstream_path: path,
            upstream_authority: authority,
            use_tls,
            preserve_host: route.preserve_host_header,
            route_id: Some(route.id),
        },
    )
}

impl RequestContext {
    /// The context before routing: nothing chosen yet, port 80.
    pub fn new() -> (r: RequestContext)
        ensures
            r.upstream_host@.len() == 0,
            r.upstream_port == 80,
            r.upstream_path@.len() == 0,
            r.upstream_authority@.len() == 0,
            !r.use_tls,
            !r.preserve_host,
            r.route_id is None,
    {
        RequestContext {
            upstream_host: String::new(),
            upstream_port: 80,
            upstream_path: String::new(),
            upstream_authority: String::new(),
            use_tls: false,
            preserve_host: false,
            route_id: None,
        }
    }

    /// Headers to set on the upstream request: `Host` (unless the route
    /// preserves the client's) and `X-Forwarded-Proto` for the inbound scheme.
    pub fn upstream_headers(&self, inbound_tls: bool) -> (r: Vec<(String, String)>)
        ensures
            !self.preserve_host ==> r@.len() == 2 && r@[0].0@ == "Host"@ && r@[0].1@
                == self.upstream_authority@ && r@[1].0@ == "X-Forwarded-Proto"@,
            self.preserve_host ==> r@.len() == 1 && r@[0].0@ == "X-Forwarded-Proto"@,
            r@.last().1@ == if inbound_tls {
                "https"@
            } else {
                "http"@
            },
    {
        let mut out: Vec<(String, String)> = Vec::new();
        if !self.preserve_host {
            out.push((String::from_str("Host"), self.upstream_authority.clone()));
        }
        let proto = if inbound_tls {
            String::from_str("https")
        } else {
            String::from_str("http")
        };
        out.push((String::from_str("X-Forwarded-Proto"), proto));
        out
    }
}

/// Header added to every upstream response.
pub fn powered_by_header() -> (r: (String, String))
    ensures
        r.0@ == "X-Powered-By"@,
        r.1@ == "Karateway"@,
{
    (String::from_str("X-Powered-By"), String::from_str("Karateway"))
}

fn first_denial(decisions: &Vec<LimitDecision>) -> (r: Option<usize>)
    ensures
        match first_denied(decisions@, decisions@.len()) {
            None => r is None,
            Some(k) => r == Some(k as usize),
        },
{
    let mut i: usize = 0;
    while i < decisions.len()
        invariant
            i <= decisions@.len(),
            first_denied(decisions@, i as nat) is None,
        decreases decisions@.len() - i,
    {
        if !decisions[i].allowed {
            proof {
                assert(first_denied(decisions@, (i + 1) as nat) == Some(i as nat));
                lemma_first_denied_stable(decisions@, (i + 1) as nat, decisions@.len());
            }
            return Some(i);
        }
        i = i + 1;
    }
    None
}

proof fn lemma_first_denied_stable(d: Seq<LimitDecision>, m: nat, n: nat)
    requires
        m <= n,
        first_denied(d, m) is Some,
    ensures
        first_denied(d, n) == first_denied(d, m),
    decreases n - m,
{
    if m < n {
        lemma_first_denied_stable(d, m, (n - 1) as nat);
    }
}

/// The whole pipeline for one request, given the health entry observed for
/// its service and the limiter's decisions for `checks`, in order (the caller
/// may stop at the first denial). The outcome is the one `request_verdict`
/// names.
pub fn decide(
    cfg: &GatewayConfig,
    req: &RequestInfo,
    entry: Option<HealthStatus>,
    checks: &Vec<LimitCheck>,
    decisions: &Vec<LimitDecision>,
) -> (r: Outcome)
    requires
        decisions@.len() <= checks@.len(),
    ensures
        match request_verdict(*cfg, *req, entry, decisions@, decisions@.len()) {
            Verdict::NotFound => r matches Outcome::Respond(d) && is_not_found(d.response)
                && d.audit is None,
            Verdict::Forbidden => r matches Outcome::Respond(d) && is_forbidden(d.response)
                && (d.audit matches Some(a) && is_whitelist_record(
                a,
                *req,
                cfg.routes@[served_route(*cfg, *req)].id,
            )),
            Verdict::Unavailable => r matches Outcome::Respond(d) && is_unavailable(
                d.response,
                cfg.services@[served_service(*cfg, *req)].name@,
            ) && d.audit is None,
            Verdict::RateLimited(i) => r matches Outcome::Respond(d) && is_rate_limited(
                d.response,
                checks@[i as int].limit,
                decisions@[i as int].reset,
            ) && (d.audit matches Some(a) && is_rate_limit_record(
                a,
                *req,
                cfg.routes@[served_route(*cfg, *req)].id,
                checks@[i as int],
            )),
            Verdict::BadUpstream => r matches Outcome::Respond(d) && is_bad_upstream(d.response)
                && d.audit is None,
            Verdict::Forward => r matches Outcome::Forward(c) && is_context_for(
                c,
                cfg.routes@[served_route(*cfg, *req)],
                url_parts(
                    cfg.services@[served_service(*cfg, *req)].base_url@,
                )->0,
                *req,
            ),
        },
{
    let routed = match authorize(cfg, req) {
        Ok(x) => x,
        Err(d) => return Outcome::Respond(d),
    };
    proof {
        crate::router::lemma_routing_bounds(*cfg, req.path@, upper_of(req.method@));
    }
    match health_stage(cfg, routed, entry) {
        Ok(()) => {},
        Err(d) => return Outcome::Respond(d),
    }
    match first_denial(decisions) {
        Some(i) => {
            proof {
                lemma_first_denied(decisions@, decisions@.len());
            }
            let check = &checks[i];
            let route_id = cfg.routes[routed.route].id;
            return Outcome::Respond(
                Denial {
                    response: rate_limited_response(&check.limit, decisions[i].reset),
                    audit: Some(rate_limit_denial_record(req, route_id, check)),
                },
            );
        },
        None => {},
    }
    match upstream_context(cfg, req, routed) {
        Ok(c) => Outcome::Forward(c),
        Err(d) => Outcome::Respond(d),
    }
}

} // verus!
