use karateway::health::HealthChecker;
use karateway::health::HealthStatus;
use karateway::models::ApiRoute;
use karateway::models::BackendService;
use karateway::models::HttpMethod;
use karateway::models::IdentifierType;
use karateway::models::RateLimit;
use karateway::models::RuleConfig;
use karateway::models::RuleType;
use karateway::models::WhitelistRule;
use karateway::proxy::decide;
use karateway::proxy::limit_checks;
use karateway::proxy::Outcome;
use karateway::rate_limiter::BucketState;
use karateway::rate_limiter::LimitDecision;
use karateway::rate_limiter::RateLimiter;
use karateway::request::RequestInfo;
use karateway::router::Router;
use karateway::snapshot::GatewayConfig;
use karateway::whitelist::WhitelistValidator;

const SVC1: u128 = 0x11;
const SVC2: u128 = 0x22;
const ROUTE: u128 = 0x0123_4567_89ab_cdef_0011_2233_4455_6677;

fn service(id: u128, name: &str, base_url: &str) -> BackendService {
    BackendService {
        id,
        name: name.to_string(),
        description: None,
        base_url: base_url.to_string(),
        health_check_url: None,
        health_check_interval_seconds: None,
        timeout_ms: None,
        is_active: true,
        created_at: 0,
        updated_at: 0,
    }
}

fn route(id: u128, pattern: &str, method: HttpMethod, service_id: u128) -> ApiRoute {
    ApiRoute {
        id,
        path_pattern: pattern.to_string(),
        method,
        backend_service_id: service_id,
        strip_path_prefix: false,
        preserve_host_header: false,
        timeout_ms: None,
        is_active: true,
        priority: 0,
        metadata: "null".to_string(),
        created_at: 0,
        updated_at: 0,
    }
}

fn request(method: &str, path: &str) -> RequestInfo {
    RequestInfo {
        method: method.to_string(),
        path: path.to_string(),
        query: None,
        host: None,
        forwarded_for: None,
        api_key: None,
        authorization: None,
        user_id: None,
        user_agent: None,
        peer_ip: Some("2.2.2.2".to_string()),
        inbound_tls: false,
    }
}

fn limit(id: u128, max: i32, window: i32, burst: Option<i32>) -> RateLimit {
    RateLimit {
        id,
        name: "per-ip".to_string(),
        api_route_id: Some(ROUTE),
        max_requests: max,
        window_seconds: window,
        identifier_type: IdentifierType::Ip,
        is_active: true,
        burst_size: burst,
        created_at: 0,
        updated_at: 0,
    }
}

fn rule(name: &str, rule_type: RuleType, ips: Option<Vec<&str>>, keys: Option<Vec<&str>>, priority: i32) -> WhitelistRule {
    WhitelistRule {
        id: 7,
        rule_name: name.to_string(),
        rule_type,
        api_route_id: Some(ROUTE),
        config: RuleConfig {
            allowed_ips: ips.map(|v| v.into_iter().map(|s| s.to_string()).collect()),
            allowed_keys: keys.map(|v| v.into_iter().map(|s| s.to_string()).collect()),
        },
        is_active: true,
        priority,
        created_at: 0,
        updated_at: 0,
    }
}

fn strip_config(preserve_host: bool) -> GatewayConfig {
    let mut r = route(ROUTE, "/api/v1", HttpMethod::GET, SVC1);
    r.strip_path_prefix = true;
    r.preserve_host_header = preserve_host;
    GatewayConfig::from_rows(vec![service(SVC1, "svc", "http://svc:9000")], vec![r], vec![], vec![])
}

fn forwarded(o: Outcome) -> karateway::proxy::RequestContext {
    match o {
        Outcome::Forward(c) => c,
        Outcome::Respond(d) => panic!("expected a forward, got status {}", d.response.status),
    }
}

fn responded(o: Outcome) -> karateway::proxy::Denial {
    match o {
        Outcome::Respond(d) => d,
        Outcome::Forward(c) => panic!("expected a response, got a forward to {}", c.upstream_path),
    }
}

#[test]
fn test_transform_path_with_strip() {
    let mut r = route(1, "/api/v1", HttpMethod::GET, 2);
    r.strip_path_prefix = true;
    r.preserve_host_header = true;
    r.timeout_ms = Some(5000);
    r.priority = 100;
    let original = "/api/v1/users";
    let expected = "/users";
    let result = Router::transform_path(&r, original);
    assert_eq!(result, expected);
}

#[test]
fn test_ip_matches_exact() {
    assert!(WhitelistValidator::ip_matches("192.168.1.1", "192.168.1.1"));
    assert!(!WhitelistValidator::ip_matches("192.168.1.1", "192.168.1.2"));
}

#[test]
fn strip_prefix_rewrites_to_upstream() {
    let cfg = strip_config(false);
    let mut req = request("GET", "/api/v1/users");
    req.query = Some("x=1".to_string());
    req.host = Some("client.example".to_string());
    let ctx = forwarded(decide(&cfg, &req, None, &vec![], &vec![]));
    assert_eq!(ctx.upstream_host, "svc");
    assert_eq!(ctx.upstream_port, 9000);
    assert_eq!(ctx.upstream_path, "/users?x=1");
    assert!(!ctx.use_tls);
    assert_eq!(ctx.route_id, Some(ROUTE));
    let headers = ctx.upstream_headers(false);
    assert_eq!(headers, vec![
        ("Host".to_string(), "svc:9000".to_string()),
        ("X-Forwarded-Proto".to_string(), "http".to_string()),
    ]);
    let url = Router::build_upstream_url(&cfg.services[0], "/users", Some("x=1"));
    assert_eq!(url, "http://svc:9000/users?x=1");
}

#[test]
fn preserve_host_keeps_client_host() {
    let cfg = strip_config(true);
    let mut req = request("GET", "/api/v1/users");
    req.query = Some("x=1".to_string());
    req.host = Some("client.example".to_string());
    let ctx = forwarded(decide(&cfg, &req, None, &vec![], &vec![]));
    assert!(ctx.preserve_host);
    let headers = ctx.upstream_headers(true);
    assert_eq!(headers, vec![("X-Forwarded-Proto".to_string(), "https".to_string())]);
}

#[test]
fn strip_prefix_edge_paths() {
    let mut r = route(1, "/api/v1", HttpMethod::GET, 2);
    r.strip_path_prefix = true;
    assert_eq!(Router::transform_path(&r, "/api/v1"), "/");
    assert_eq!(Router::transform_path(&r, "/api/v1users"), "/users");
    assert_eq!(Router::transform_path(&r, "/other"), "/other");
    r.strip_path_prefix = false;
    assert_eq!(Router::transform_path(&r, "/api/v1/users"), "/api/v1/users");
}

#[test]
fn upstream_url_trims_and_joins() {
    let s = service(1, "svc", "http://svc:9000//");
    assert_eq!(Router::build_upstream_url(&s, "users", None), "http://svc:9000/users");
    assert_eq!(Router::build_upstream_url(&s, "/users", Some("")), "http://svc:9000/users");
}

#[test]
fn whitelist_or_admits_on_any_rule() {
    let rules = vec![
        rule("ip-rule", RuleType::Ip, Some(vec!["1.1.1.1"]), None, 10),
        rule("key-rule", RuleType::ApiKey, None, Some(vec!["K"]), 5),
    ];
    let cfg = GatewayConfig::from_rows(
        vec![service(SVC1, "svc", "http://svc:9000")],
        vec![route(ROUTE, "/r", HttpMethod::GET, SVC1)],
        vec![],
        rules,
    );
    let mut with_key = request("GET", "/r");
    with_key.api_key = Some("K".to_string());
    let ctx = forwarded(decide(&cfg, &with_key, None, &vec![], &vec![]));
    assert_eq!(ctx.upstream_path, "/r");

    let without = request("GET", "/r");
    let d = responded(decide(&cfg, &without, None, &vec![], &vec![]));
    assert_eq!(d.response.status, 403);
    assert_eq!(d.response.body, "{\"error\":\"Forbidden\",\"message\":\"Access denied by whitelist rules\"}");
    let audit = d.audit.expect("one audit record");
    assert_eq!(audit.event_type, "whitelist_denied");
    assert_eq!(audit.event_category, "whitelist");
    assert_eq!(audit.severity, "warning");
    assert_eq!(audit.status_code, Some(403));
    assert_eq!(audit.client_ip, Some("2.2.2.2".to_string()));
    assert_eq!(audit.message, "Access denied by whitelist rules for GET /r");
}

#[test]
fn validate_request_names_first_rule() {
    let rules = vec![
        rule("key-rule", RuleType::ApiKey, None, Some(vec!["K"]), 5),
        rule("ip-rule", RuleType::Ip, Some(vec!["2.2.2.2"]), None, 1),
    ];
    let mut req = request("GET", "/r");
    req.api_key = Some("K".to_string());
    let (ok, name) = WhitelistValidator::validate_request(&rules, &req, Some("2.2.2.2"));
    assert!(ok);
    assert_eq!(name, Some("key-rule".to_string()));
    let (ok, name) = WhitelistValidator::validate_request(&vec![], &req, None);
    assert!(ok);
    assert_eq!(name, None);
    let custom = vec![rule("custom", RuleType::Custom, None, None, 0)];
    assert_eq!(WhitelistValidator::validate_request(&custom, &req, Some("2.2.2.2")), (false, None));
}

#[test]
fn whitelist_rules_sorted_by_priority() {
    let mut global = rule("global", RuleType::Custom, None, None, 50);
    global.api_route_id = None;
    let cfg = GatewayConfig::from_rows(
        vec![],
        vec![],
        vec![],
        vec![
            rule("low", RuleType::Custom, None, None, 1),
            global,
            rule("high", RuleType::Custom, None, None, 100),
            rule("low-again", RuleType::Custom, None, None, 1),
        ],
    );
    let rules = Router::get_whitelist_rules(&cfg, ROUTE).unwrap();
    let names: Vec<String> = rules.iter().map(|r| r.rule_name.clone()).collect();
    assert_eq!(names, vec!["high", "global", "low", "low-again"]);
    assert!(Router::get_whitelist_rules(&cfg, 999).is_some());
    let empty = GatewayConfig::new();
    assert!(Router::get_whitelist_rules(&empty, ROUTE).is_none());
    assert!(Router::get_rate_limits(&empty, ROUTE).is_none());
}

#[test]
fn jwt_rule_checks_token_shape() {
    let rules = vec![rule("jwt", RuleType::Jwt, None, None, 0)];
    let mut req = request("GET", "/r");
    req.authorization = Some("Bearer a.b.c".to_string());
    assert!(WhitelistValidator::validate_request(&rules, &req, None).0);
    req.authorization = Some("Bearer ab".to_string());
    assert!(!WhitelistValidator::validate_request(&rules, &req, None).0);
    req.authorization = Some("Basic a.b.c".to_string());
    assert!(!WhitelistValidator::validate_request(&rules, &req, None).0);
    req.authorization = None;
    assert!(!WhitelistValidator::validate_request(&rules, &req, None).0);
}

#[test]
fn cidr_entries_compare_address_part() {
    assert!(WhitelistValidator::ip_matches("10.0.0.0", "10.0.0.0/8"));
    assert!(!WhitelistValidator::ip_matches("10.1.2.3", "10.0.0.0/8"));
}

#[test]
fn client_ip_prefers_forwarded_for() {
    let mut req = request("GET", "/");
    req.forwarded_for = Some(" 1.2.3.4 , 5.6.7.8".to_string());
    assert_eq!(req.client_ip(), Some("1.2.3.4".to_string()));
    req.forwarded_for = None;
    assert_eq!(req.client_ip(), Some("2.2.2.2".to_string()));
    req.peer_ip = None;
    assert_eq!(req.identifier(IdentifierType::Ip), "unknown");
    assert_eq!(req.identifier(IdentifierType::ApiKey), "no-api-key");
    assert_eq!(req.identifier(IdentifierType::UserId), "no-user-id");
    assert_eq!(req.identifier(IdentifierType::Global), "global");
}

/// Serves requests at the given seconds against a sliding window held in a
/// vector, the way the store holds it.
fn run_sliding(times: &[u64], max: i32, window: i32) -> Vec<LimitDecision> {
    let mut log: Vec<u64> = Vec::new();
    let mut out = Vec::new();
    for &now in times {
        if let Some(cut) = RateLimiter::sliding_cutoff(now, window) {
            log.retain(|&s| s > cut);
        }
        let count = log.len() as u64;
        let oldest = log.iter().copied().min();
        let d = RateLimiter::sliding_window_decision(now, count, oldest, max, window);
        if d.allowed {
            log.push(now);
        }
        out.push(d);
    }
    out
}

#[test]
fn sliding_limit_denies_fourth_request() {
    let mut l = limit(1, 3, 60, None);
    l.name = "three-per-minute".to_string();
    let cfg = GatewayConfig::from_rows(
        vec![service(SVC1, "svc", "http://svc:9000")],
        vec![route(ROUTE, "/a", HttpMethod::GET, SVC1)],
        vec![l],
        vec![],
    );
    let mut req = request("GET", "/a");
    req.forwarded_for = Some("9.9.9.9".to_string());
    let routed = karateway::proxy::authorize(&cfg, &req).ok().unwrap();
    let checks = limit_checks(&cfg, &req, routed);
    assert_eq!(checks.len(), 1);
    assert_eq!(checks[0].identifier, "9.9.9.9");
    assert_eq!(checks[0].key, "ratelimit:01234567-89ab-cdef-0011-223344556677:ip:9.9.9.9");

    let decisions = run_sliding(&[1000, 1003, 1006, 1009], 3, 60);
    let mut audits = 0;
    for (i, d) in decisions.iter().enumerate() {
        let outcome = decide(&cfg, &req, None, &checks, &vec![*d]);
        if i < 3 {
            assert!(d.allowed);
            assert_eq!(d.remaining, 2 - i as i64);
            forwarded(outcome);
        } else {
            assert!(!d.allowed);
            assert_eq!(d.remaining, 0);
            assert_eq!(d.reset, 1060);
            let den = responded(outcome);
            assert_eq!(den.response.status, 429);
            let h = &den.response.headers;
            assert!(h.contains(&("X-RateLimit-Remaining".to_string(), "0".to_string())));
            assert!(h.contains(&("Retry-After".to_string(), "60".to_string())));
            assert!(h.contains(&("X-RateLimit-Limit".to_string(), "3".to_string())));
            assert!(h.contains(&("X-RateLimit-Reset".to_string(), "1060".to_string())));
            assert_eq!(den.response.body, "{\"error\":\"Rate limit exceeded\",\"retry_after\":60,\"limit\":\"three-per-minute\"}");
            let a = den.audit.expect("audit record");
            assert_eq!(a.status_code, Some(429));
            assert_eq!(a.event_type, "rate_limit_exceeded");
            assert_eq!(a.metadata.len(), 5);
            audits += 1;
        }
    }
    assert_eq!(audits, 1);
}

#[test]
fn sliding_window_never_exceeds_limit_in_any_window() {
    let times: Vec<u64> = (0..200u64).map(|i| i / 3).collect();
    let decisions = run_sliding(&times, 5, 10);
    let admitted: Vec<u64> = times.iter().zip(decisions.iter()).filter(|(_, d)| d.allowed).map(|(t, _)| *t).collect();
    for x in 0..80u64 {
        let n = admitted.iter().filter(|&&a| a + 10 > x && a <= x).count();
        assert!(n <= 5, "window ending at {} holds {}", x, n);
    }
    assert!(admitted.len() > 5);
}

#[test]
fn sliding_decision_values() {
    let d = RateLimiter::sliding_window_decision(100, 0, None, 5, 30);
    assert_eq!(d, LimitDecision { allowed: true, remaining: 4, reset: 130 });
    let d = RateLimiter::sliding_window_decision(100, 5, Some(90), 5, 30);
    assert_eq!(d, LimitDecision { allowed: false, remaining: 0, reset: 120 });
    let d = RateLimiter::sliding_window_decision(100, 7, None, 5, 30);
    assert_eq!(d, LimitDecision { allowed: false, remaining: 0, reset: 130 });
    assert_eq!(RateLimiter::sliding_cutoff(100, 30), Some(70));
    assert_eq!(RateLimiter::sliding_cutoff(10, 30), None);
    assert_eq!(RateLimiter::sliding_ttl(30), 90);
    assert_eq!(RateLimiter::bucket_ttl(30), 60);
}

#[test]
fn token_bucket_allows_burst_then_denies() {
    let mut state: Option<BucketState> = None;
    let now = 5000;
    for i in 0..15 {
        let d = RateLimiter::token_bucket_decision(now, state, 10, 10, 5);
        assert!(d.decision.allowed, "request {} should be admitted", i + 1);
        assert_eq!(d.decision.remaining, 14 - i as i64);
        state = d.store;
    }
    let d = RateLimiter::token_bucket_decision(now, state, 10, 10, 5);
    assert!(!d.decision.allowed);
    assert_eq!(d.decision.remaining, 0);
    assert_eq!(d.decision.reset, now + 1);
    assert_eq!(d.store, None);
}

#[test]
fn token_bucket_refills_at_rate() {
    let first = RateLimiter::token_bucket_decision(100, None, 10, 10, 5);
    assert_eq!(first.decision.reset, 101);
    assert_eq!(first.store, Some(BucketState { tokens: 14, last_refill: 100 }));
    let empty = Some(BucketState { tokens: 0, last_refill: 100 });
    let later = RateLimiter::token_bucket_decision(103, empty, 10, 10, 5);
    assert!(later.decision.allowed);
    assert_eq!(later.decision.remaining, 2);
    assert_eq!(later.decision.reset, 103 + 13);
    assert_eq!(later.store, Some(BucketState { tokens: 2, last_refill: 103 }));
    let capped = RateLimiter::token_bucket_decision(10_000, empty, 10, 10, 5);
    assert_eq!(capped.decision.remaining, 14);
}

#[test]
fn token_bucket_long_run_rate() {
    let mut state: Option<BucketState> = None;
    let mut admitted: u64 = 0;
    let start = 1000u64;
    let mut last = start;
    for i in 0..2000u64 {
        let now = start + i / 20;
        last = now;
        let d = RateLimiter::token_bucket_decision(now, state, 10, 10, 5);
        if d.decision.allowed {
            admitted += 1;
            state = d.store;
        }
    }
    assert!(admitted * 10 <= 10 * 15 + (last - start) * 10);
}

#[test]
fn bucket_key_is_namespaced() {
    let cfg = GatewayConfig::from_rows(
        vec![service(SVC1, "svc", "http://svc:9000")],
        vec![route(ROUTE, "/a", HttpMethod::GET, SVC1)],
        vec![limit(1, 10, 10, Some(5))],
        vec![],
    );
    let mut req = request("GET", "/a");
    req.forwarded_for = None;
    let routed = karateway::proxy::authorize(&cfg, &req).ok().unwrap();
    let checks = limit_checks(&cfg, &req, routed);
    assert_eq!(checks[0].key, "ratelimit:bucket:01234567-89ab-cdef-0011-223344556677:ip:2.2.2.2");
    assert_eq!(RateLimiter::composite_key(1, IdentifierType::Global, "global"), "00000000-0000-0000-0000-000000000001:global:global");
}

#[test]
fn unhealthy_backend_returns_503_until_recovered() {
    let mut s = service(SVC1, "orders", "http://svc:9000");
    s.health_check_url = Some("/hz".to_string());
    let cfg = GatewayConfig::from_rows(vec![s], vec![route(ROUTE, "/a", HttpMethod::GET, SVC1)], vec![], vec![]);
    let targets = HealthChecker::probe_targets(&cfg);
    assert_eq!(targets, vec![(SVC1, "http://svc:9000/hz".to_string())]);
    let hc = HealthChecker::new();
    assert!(hc.is_healthy(SVC1));
    hc.record_probe(SVC2, Some(500));
    let plain = GatewayConfig::from_rows(vec![service(SVC2, "plain", "http://p:1")], vec![route(ROUTE, "/a", HttpMethod::GET, SVC2)], vec![], vec![]);
    forwarded(decide(&plain, &request("GET", "/a"), hc.entry(SVC2), &vec![], &vec![]));
    assert_eq!(hc.get_status(SVC1), HealthStatus::Unknown);

    let change = hc.record_probe(SVC1, Some(500));
    assert!(change.changed());
    assert!(!hc.is_healthy(SVC1));
    let req = request("GET", "/a");
    let d = responded(decide(&cfg, &req, hc.entry(SVC1), &vec![], &vec![]));
    assert_eq!(d.response.status, 503);
    assert_eq!(d.response.body, "{\"error\":\"Service Unavailable\",\"message\":\"Backend service orders is currently unhealthy\"}");
    assert!(d.audit.is_none());

    let change = hc.record_probe(SVC1, Some(200));
    assert_eq!(change.previous, Some(HealthStatus::Unhealthy));
    assert_eq!(change.current, HealthStatus::Healthy);
    assert!(hc.is_healthy(SVC1));
    forwarded(decide(&cfg, &req, hc.entry(SVC1), &vec![], &vec![]));
    let mut all = hc.get_all_statuses();
    all.sort_by_key(|e| e.0);
    assert_eq!(all, vec![(SVC1, HealthStatus::Healthy), (SVC2, HealthStatus::Unhealthy)]);
}

#[test]
fn probe_classification_and_urls() {
    assert_eq!(HealthChecker::classify(Some(204)), HealthStatus::Healthy);
    assert_eq!(HealthChecker::classify(Some(301)), HealthStatus::Unhealthy);
    assert_eq!(HealthChecker::classify(None), HealthStatus::Unhealthy);
    let mut s = service(1, "a", "http://a:1");
    assert_eq!(HealthChecker::probe_url(&s), None);
    s.health_check_url = Some("https://elsewhere/health".to_string());
    assert_eq!(HealthChecker::probe_url(&s), Some("https://elsewhere/health".to_string()));
    assert!(HealthChecker::admits(Some(HealthStatus::Unknown)));
    assert!(HealthChecker::admits(None));
    assert!(!HealthChecker::admits(Some(HealthStatus::Unhealthy)));
}

#[test]
fn hot_reload_switches_backend() {
    let before = GatewayConfig::from_rows(
        vec![service(SVC1, "s1", "http://s1:80"), service(SVC2, "s2", "http://s2:81")],
        vec![route(ROUTE, "/a", HttpMethod::GET, SVC1)],
        vec![],
        vec![],
    );
    let after = GatewayConfig::from_rows(
        vec![service(SVC1, "s1", "http://s1:80"), service(SVC2, "s2", "http://s2:81")],
        vec![route(ROUTE, "/a", HttpMethod::GET, SVC2)],
        vec![],
        vec![],
    );
    let req = request("GET", "/a/x");
    let (_, s) = Router::route_request(&before, "/a/x", "GET").unwrap();
    assert_eq!(s.id, SVC1);
    assert_eq!(forwarded(decide(&before, &req, None, &vec![], &vec![])).upstream_host, "s1");
    let (_, s) = Router::route_request(&after, "/a/x", "GET").unwrap();
    assert_eq!(s.id, SVC2);
    assert_eq!(forwarded(decide(&after, &req, None, &vec![], &vec![])).upstream_host, "s2");
}

#[test]
fn reload_replaces_route_set_whole() {
    let old_rows = vec![route(1, "/old", HttpMethod::GET, SVC1)];
    let mut retired = route(2, "/new", HttpMethod::GET, SVC1);
    retired.is_active = false;
    let new_rows = vec![route(3, "/new", HttpMethod::GET, SVC1), retired];
    let old = GatewayConfig::from_rows(vec![service(SVC1, "s", "http://s")], old_rows, vec![], vec![]);
    let new = GatewayConfig::from_rows(vec![service(SVC1, "s", "http://s")], new_rows, vec![], vec![]);
    assert!(Router::route_request(&old, "/old", "GET").is_some());
    assert!(Router::route_request(&old, "/new", "GET").is_none());
    assert!(Router::route_request(&new, "/old", "GET").is_none());
    assert!(Router::route_request(&new, "/new", "GET").is_some());
    assert_eq!(new.routes.len(), 1);
}

#[test]
fn route_selection_by_method_and_priority() {
    let mut low = route(1, "/api", HttpMethod::GET, SVC1);
    low.priority = 1;
    let mut high = route(2, "/api/v1", HttpMethod::GET, SVC2);
    high.priority = 10;
    let post = route(3, "/api", HttpMethod::POST, SVC1);
    let mut tie = route(4, "/api", HttpMethod::GET, SVC1);
    tie.priority = 10;
    let mut inactive_service = service(SVC2, "s2", "http://s2");
    inactive_service.is_active = false;
    let cfg = GatewayConfig::from_rows(
        vec![service(SVC1, "s1", "http://s1"), service(SVC2, "s2", "http://s2")],
        vec![low, high, post, tie],
        vec![],
        vec![],
    );
    assert_eq!(cfg.find_route("/api/v1/x", "get").unwrap().id, 4);
    assert_eq!(cfg.find_route("/api/x", "post").unwrap().id, 3);
    assert!(cfg.find_route("/other", "GET").is_none());
    assert!(cfg.find_route("/api", "DELETE").is_none());
    let cfg2 = GatewayConfig::from_rows(
        vec![service(SVC1, "s1", "http://s1"), inactive_service],
        vec![route(2, "/x", HttpMethod::GET, SVC2)],
        vec![],
        vec![],
    );
    assert!(Router::route_request(&cfg2, "/x", "GET").is_none());
    assert!(cfg2.get_service(SVC2).is_none());
}

#[test]
fn no_route_gives_404() {
    let cfg = GatewayConfig::new();
    let d = responded(decide(&cfg, &request("GET", "/x"), None, &vec![], &vec![]));
    assert_eq!(d.response.status, 404);
    assert_eq!(d.response.body, "Not Found");
    assert!(d.audit.is_none());
}

#[test]
fn bad_backend_url_gives_500() {
    let cfg = GatewayConfig::from_rows(
        vec![service(SVC1, "s", "not a url")],
        vec![route(ROUTE, "/a", HttpMethod::GET, SVC1)],
        vec![],
        vec![],
    );
    let d = responded(decide(&cfg, &request("GET", "/a"), None, &vec![], &vec![]));
    assert_eq!(d.response.status, 500);
}

#[test]
fn https_backend_defaults_to_443() {
    let cfg = GatewayConfig::from_rows(
        vec![service(SVC1, "s", "https://secure.example/base")],
        vec![route(ROUTE, "/a", HttpMethod::GET, SVC1)],
        vec![],
        vec![],
    );
    let ctx = forwarded(decide(&cfg, &request("GET", "/a"), None, &vec![], &vec![]));
    assert!(ctx.use_tls);
    assert_eq!(ctx.upstream_port, 443);
    assert_eq!(ctx.upstream_authority, "secure.example");
    let ctx0 = karateway::proxy::RequestContext::new();
    assert_eq!(ctx0.upstream_port, 80);
}

#[test]
fn http_method_parsing() {
    assert_eq!(HttpMethod::parse("get"), Ok(HttpMethod::GET));
    assert_eq!(HttpMethod::parse("Options"), Ok(HttpMethod::OPTIONS));
    assert_eq!(HttpMethod::parse("fetch"), Err("Invalid HTTP method: fetch".to_string()));
    assert_eq!(HttpMethod::DELETE.as_str(), "DELETE");
}

#[test]
fn limiter_client_url_check() {
    assert!(RateLimiter::new("redis://localhost:6379").is_ok());
    assert!(RateLimiter::new("not a url").is_err());
}

#[test]
fn powered_by_header_value() {
    assert_eq!(
        karateway::proxy::powered_by_header(),
        ("X-Powered-By".to_string(), "Karateway".to_string())
    );
}
