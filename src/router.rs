//! Route selection, path rewriting and upstream URL construction.
use vstd::prelude::*;

use crate::models::ApiRoute;
use crate::models::BackendService;
use crate::models::RateLimit;
use crate::models::WhitelistRule;
use crate::snapshot::best_route;
use crate::snapshot::by_priority;
use crate::snapshot::limits_keyed;
use crate::snapshot::rules_keyed;
use crate::snapshot::same_rules;
use crate::snapshot::service_index;
use crate::snapshot::GatewayConfig;
use crate::text::is_prefix;
use crate::text::opt_text;
use crate::text::starts_with;
use crate::text::strip_trailing;
use crate::text::trim_end_char;
use crate::text::upper_of;

verus! {

/// Indices of the route and service that serve a request: the selected route,
/// provided its service is in the snapshot and active.
pub open spec fn routing(cfg: GatewayConfig, path: Seq<char>, upper_method: Seq<char>) -> Option<
    (int, int),
> {
    match best_route(cfg.routes@, path, upper_method) {
        None => None,
        Some(ri) => match service_index(cfg.services@, cfg.routes@[ri].backend_service_id) {
            None => None,
            Some(si) => if cfg.services@[si].is_active {
                Some((ri, si))
            } else {
                None
            },
        },
    }
}

/// The indices `routing` selects are in range; the route matches the request
/// and the service is the active one the route names.
pub proof fn lemma_routing_bounds(cfg: GatewayConfig, path: Seq<char>, upper_method: Seq<char>)
    ensures
        routing(cfg, path, upper_method) matches Some((ri, si)) ==> {
            &&& 0 <= ri < cfg.routes@.len()
            &&& 0 <= si < cfg.services@.len()
            &&& crate::snapshot::route_matches(cfg.routes@[ri], path, upper_method)
            &&& cfg.services@[si].id == cfg.routes@[ri].backend_service_id
            &&& cfg.services@[si].is_active
        },
{
    crate::snapshot::lemma_best_route_bound(cfg.routes@, path, upper_method);
    if let Some(ri) = best_route(cfg.routes@, path, upper_method) {
        crate::snapshot::lemma_service_index_bound(cfg.services@, cfg.routes@[ri].backend_service_id);
    }
}

/// The upstream path for `path` under `route`.
pub open spec fn rewritten_path(route: ApiRoute, path: Seq<char>) -> Seq<char> {
    if route.strip_path_prefix && is_prefix(route.path_pattern@, path) {
        let rest = path.subrange(route.path_pattern@.len() as int, path.len() as int);
        if rest.len() > 0 && rest[0] == '/' {
            rest
        } else {
            seq!['/'] + rest
        }
    } else {
        path
    }
}

/// With `strip_path_prefix`, a path that begins with the route's pattern is
/// rewritten to a path that starts with `/` and is the path with the pattern
/// removed, a `/` put in front when the remainder does not begin with one.
pub proof fn lemma_strip_prefix(route: ApiRoute, path: Seq<char>)
    requires
        route.strip_path_prefix,
        is_prefix(route.path_pattern@, path),
    ensures
        ({
            let rest = path.subrange(route.path_pattern@.len() as int, path.len() as int);
            let r = rewritten_path(route, path);
            &&& r.len() > 0 && r[0] == '/'
            &&& route.path_pattern@ + rest == path
            &&& (rest.len() > 0 && rest[0] == '/') ==> r == rest
            &&& !(rest.len() > 0 && rest[0] == '/') ==> r == seq!['/'] + rest
        }),
{
    let rest = path.subrange(route.path_pattern@.len() as int, path.len() as int);
    assert(route.path_pattern@ + rest =~= path);
    assert((seq!['/'] + rest)[0] == '/');
}

/// `base_url` without trailing slashes, then the path with a leading slash,
/// then `?query` when the query is not empty.
pub open spec fn upstream_url(base_url: Seq<char>, path: Seq<char>, query: Option<Seq<char>>) -> Seq<
    char,
> {
    let p = if path.len() > 0 && path[0] == '/' {
        path
    } else {
        seq!['/'] + path
    };
    let q = match query {
        Some(q) => if q.len() > 0 {
            seq!['?'] + q
        } else {
            Seq::empty()
        },
        None => Seq::empty(),
    };
    strip_trailing(base_url, '/') + p + q
}

/// Matches requests to routes of a snapshot and rewrites them for the upstream.
pub struct Router;

impl Router {
    /// The route and backend service for a request, if a route matches and its
    /// service is present and active.
    pub fn route_request<'a>(cfg: &'a GatewayConfig, path: &str, method: &str) -> (r: Option<
        (&'a ApiRoute, &'a BackendService),
    >)
        ensures
            r is None <==> routing(*cfg, path@, upper_of(method@)) is None,
            r matches Some((ro, sv)) ==> {
                let (ri, si) = routing(*cfg, path@, upper_of(method@))->0;
                *ro == cfg.routes@[ri] && *sv == cfg.services@[si]
            },
    {
        let route = match cfg.find_route(path, method) {
            Some(x) => x,
            None => return None,
        };
        let service = match cfg.get_service(route.backend_service_id) {
            Some(s) => s,
            None => return None,
        };
        if !service.is_active {
            return None;
        }
        Some((route, service))
    }

    /// The path sent upstream: with `strip_path_prefix`, the pattern removed
    /// from the front and a leading `/` ensured; the original path otherwise.
    pub fn transform_path(route: &ApiRoute, original_path: &str) -> (r: String)
        ensures
            r@ == rewritten_path(*route, original_path@),
    {
        if route.strip_path_prefix && starts_with(original_path, route.path_pattern.as_str()) {
            let n = original_path.unicode_len();
            let m = route.path_pattern.as_str().unicode_len();
            let rest = original_path.substring_char(m, n);
            if rest.unicode_len() > 0 && rest.get_char(0) == '/' {
                String::from_str(rest)
            } else {
                proof {
                    reveal_strlit("/");
                }
                let mut out = String::from_str("/");
                out.append(rest);
                assert(out@ =~= seq!['/'] + rest@);
                out
            }
        } else {
            String::from_str(original_path)
        }
    }

    /// The full upstream URL for a service, a path and an optional query.
    pub fn build_upstream_url(service: &BackendService, path: &str, query: Option<&str>) -> (r:
        String)
        ensures
            r@ == upstream_url(service.base_url@, path@, opt_text(query)),
    {
        proof {
            reveal_strlit("/");
            reveal_strlit("?");
        }
        let base = trim_end_char(service.base_url.as_str(), '/');
        let mut out = String::from_str(base);
        if path.unicode_len() > 0 && path.get_char(0) == '/' {
            out.append(path);
        } else {
            out.append("/");
            out.append(path);
        }
        match query {
            Some(q) => {
                if q.unicode_len() > 0 {
                    out.append("?");
                    out.append(q);
                }
            },
            None => {},
        }
        proof {
            let p = if path@.len() > 0 && path@[0] == '/' {
                path@
            } else {
                seq!['/'] + path@
            };
            let qq = match query {
                Some(q) => if q@.len() > 0 {
                    seq!['?'] + q@
                } else {
                    Seq::empty()
                },
                None => Seq::empty(),
            };
            assert(out@ =~= strip_trailing(service.base_url@, '/') + p + qq);
        }
        out
    }

    /// Route-scoped limits followed by the global ones; `None` when there are none.
    pub fn get_rate_limits(cfg: &GatewayConfig, route_id: u128) -> (r: Option<Vec<RateLimit>>)
        ensures
            ({
                let all = limits_keyed(cfg.rate_limits@, Some(route_id)) + limits_keyed(
                    cfg.rate_limits@,
                    None,
                );
                &&& (r is None <==> all.len() == 0)
                &&& (r matches Some(v) ==> v@ == all)
            }),
    {
        let limits = cfg.rate_limits_for(route_id);
        if limits.len() == 0 {
            None
        } else {
            Some(limits)
        }
    }

    /// Route-scoped and global rules, highest priority first; `None` when
    /// there are none.
    pub fn get_whitelist_rules(cfg: &GatewayConfig, route_id: u128) -> (r: Option<
        Vec<WhitelistRule>,
    >)
        ensures
            ({
                let all = by_priority(
                    rules_keyed(cfg.whitelist_rules@, Some(route_id)) + rules_keyed(
                        cfg.whitelist_rules@,
                        None,
                    ),
                );
                &&& (r is None <==> all.len() == 0)
                &&& (r matches Some(v) ==> same_rules(v@, all))
            }),
    {
        let rules = cfg.whitelist_rules_for(route_id);
        if rules.len() == 0 {
            None
        } else {
            Some(rules)
        }
    }
}

} // verus!
