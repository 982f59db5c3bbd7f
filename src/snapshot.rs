//! The configuration snapshot: an immutable view of all active configuration
//! that one request reads from start to end.
use vstd::prelude::*;

use crate::models::ApiRoute;
use crate::models::BackendService;
use crate::models::RateLimit;
use crate::models::WhitelistRule;
use crate::text::is_prefix;
use crate::text::starts_with;
use crate::text::upper_of;
use crate::text::uppercase;

verus! {

/// The active services of `s`, in order.
pub open spec fn active_services(s: Seq<BackendService>) -> Seq<BackendService>
    decreases s.len(),
{
    if s.len() == 0 {
        s
    } else if s.last().is_active {
        active_services(s.drop_last()).push(s.last())
    } else {
        active_services(s.drop_last())
    }
}

/// The active routes of `s`, in order.
pub open spec fn active_routes(s: Seq<ApiRoute>) -> Seq<ApiRoute>
    decreases s.len(),
{
    if s.len() == 0 {
        s
    } else if s.last().is_active {
        active_routes(s.drop_last()).push(s.last())
    } else {
        active_routes(s.drop_last())
    }
}

/// The active limits of `s`, in order.
pub open spec fn active_limits(s: Seq<RateLimit>) -> Seq<RateLimit>
    decreases s.len(),
{
    if s.len() == 0 {
        s
    } else if s.last().is_active {
        active_limits(s.drop_last()).push(s.last())
    } else {
        active_limits(s.drop_last())
    }
}

/// The active rules of `s`, in order.
pub open spec fn active_rules(s: Seq<WhitelistRule>) -> Seq<WhitelistRule>
    decreases s.len(),
{
    if s.len() == 0 {
        s
    } else if s.last().is_active {
        active_rules(s.drop_last()).push(s.last())
    } else {
        active_rules(s.drop_last())
    }
}

/// The limits of `s` keyed by `key` (`None`: the global ones), in order.
pub open spec fn limits_keyed(s: Seq<RateLimit>, key: Option<u128>) -> Seq<RateLimit>
    decreases s.len(),
{
    if s.len() == 0 {
        s
    } else if s.last().api_route_id == key {
        limits_keyed(s.drop_last(), key).push(s.last())
    } else {
        limits_keyed(s.drop_last(), key)
    }
}

/// The rules of `s` keyed by `key` (`None`: the global ones), in order.
pub open spec fn rules_keyed(s: Seq<WhitelistRule>, key: Option<u128>) -> Seq<WhitelistRule>
    decreases s.len(),
{
    if s.len() == 0 {
        s
    } else if s.last().api_route_id == key {
        rules_keyed(s.drop_last(), key).push(s.last())
    } else {
        rules_keyed(s.drop_last(), key)
    }
}

/// Route `r` is a candidate for a request: same method, and its pattern is a
/// prefix of the path.
pub open spec fn route_matches(r: ApiRoute, path: Seq<char>, upper_method: Seq<char>) -> bool {
    r.method.text() == upper_method && is_prefix(r.path_pattern@, path)
}

/// Index of the selected route: the highest priority among candidates, the
/// later one in the list on equal priority.
pub open spec fn best_route(routes: Seq<ApiRoute>, path: Seq<char>, upper_method: Seq<char>) -> Option<int>
    decreases routes.len(),
{
    if routes.len() == 0 {
        None
    } else {
        let prev = best_route(routes.drop_last(), path, upper_method);
        let i = routes.len() - 1;
        if route_matches(routes[i], path, upper_method) && (prev matches Some(p) ==> routes[p].priority
            <= routes[i].priority) {
            Some(i)
        } else {
            prev
        }
    }
}

/// The index `best_route` selects is in range and matches the request.
pub proof fn lemma_best_route_bound(routes: Seq<ApiRoute>, path: Seq<char>, upper_method: Seq<char>)
    ensures
        best_route(routes, path, upper_method) matches Some(i) ==> 0 <= i < routes.len()
            && route_matches(routes[i], path, upper_method),
    decreases routes.len(),
{
    if routes.len() > 0 {
        lemma_best_route_bound(routes.drop_last(), path, upper_method);
    }
}

/// Index of the first service of `s` with the identifier `id`.
pub open spec fn service_index(s: Seq<BackendService>, id: u128) -> Option<int>
    decreases s.len(),
{
    if s.len() == 0 {
        None
    } else if s[0].id == id {
        Some(0)
    } else {
        match service_index(s.drop_first(), id) {
            Some(i) => Some(i + 1),
            None => None,
        }
    }
}

/// Inserts `x` into `s` (ordered by descending priority) after every element of
/// priority at least `x.priority`.
pub open spec fn insert_by_priority(s: Seq<WhitelistRule>, x: WhitelistRule) -> Seq<WhitelistRule>
    decreases s.len(),
{
    if s.len() == 0 {
        seq![x]
    } else if s.last().priority < x.priority {
        insert_by_priority(s.drop_last(), x).push(s.last())
    } else {
        s.push(x)
    }
}

/// `s` sorted by descending priority, keeping the order of equal priorities.
pub open spec fn by_priority(s: Seq<WhitelistRule>) -> Seq<WhitelistRule>
    decreases s.len(),
{
    if s.len() == 0 {
        s
    } else {
        insert_by_priority(by_priority(s.drop_last()), s.last())
    }
}

/// Rule sequences equal up to copies of their lists.
pub open spec fn same_rules(a: Seq<WhitelistRule>, b: Seq<WhitelistRule>) -> bool {
    a.len() == b.len() && forall|i: int| 0 <= i < a.len() ==> #[trigger] a[i].same_as(b[i])
}

/// A route is in the snapshot of a load exactly when it is an active row of it.
pub proof fn lemma_active_routes_member(rows: Seq<ApiRoute>, r: ApiRoute)
    ensures
        active_routes(rows).contains(r) <==> (rows.contains(r) && r.is_active),
    decreases rows.len(),
{
    if rows.len() > 0 {
        lemma_active_routes_member(rows.drop_last(), r);
        let prev = active_routes(rows.drop_last());
        if rows.last().is_active {
            assert(active_routes(rows) == prev.push(rows.last()));
            if prev.push(rows.last()).contains(r) && r != rows.last() {
                let i = choose|i: int| 0 <= i < prev.push(rows.last()).len() && prev.push(rows.last())[i] == r;
                assert(prev[i] == r);
            }
            if prev.contains(r) {
                let i = choose|i: int| 0 <= i < prev.len() && prev[i] == r;
                assert(prev.push(rows.last())[i] == r);
            }
            assert(prev.push(rows.last())[prev.len() as int] == rows.last());
        }
        if rows.contains(r) {
            let i = choose|i: int| 0 <= i < rows.len() && rows[i] == r;
            if i < rows.len() - 1 {
                assert(rows.drop_last()[i] == r);
            }
        }
        if rows.drop_last().contains(r) {
            let i = choose|i: int| 0 <= i < rows.drop_last().len() && rows.drop_last()[i] == r;
            assert(rows[i] == r);
        }
        assert(rows[rows.len() - 1] == rows.last());
    }
}

/// A reload that adds route `added` and removes route `removed` publishes a
/// whole snapshot: a reader holding either the old or the new one sees
/// `removed` without `added`, or `added` without `removed`.
pub proof fn lemma_reload_whole(
    old_rows: Seq<ApiRoute>,
    new_rows: Seq<ApiRoute>,
    added: ApiRoute,
    removed: ApiRoute,
    seen: Seq<ApiRoute>,
)
    requires
        added.is_active && new_rows.contains(added) && !old_rows.contains(added),
        removed.is_active && old_rows.contains(removed) && !new_rows.contains(removed),
        seen == active_routes(old_rows) || seen == active_routes(new_rows),
    ensures
        (seen.contains(removed) && !seen.contains(added)) || (seen.contains(added) && !seen.contains(
            removed,
        )),
{
    lemma_active_routes_member(old_rows, added);
    lemma_active_routes_member(old_rows, removed);
    lemma_active_routes_member(new_rows, added);
    lemma_active_routes_member(new_rows, removed);
}

/// Immutable view of the active configuration.
pub struct GatewayConfig {
    /// Active backend services.
    pub services: Vec<BackendService>,
    /// Active routes.
    pub routes: Vec<ApiRoute>,
    /// Active rate limits; grouped by `api_route_id` on lookup.
    pub rate_limits: Vec<RateLimit>,
    /// Active whitelist rules; grouped by `api_route_id` on lookup.
    pub whitelist_rules: Vec<WhitelistRule>,
}

impl GatewayConfig {
    /// The empty snapshot, served before the first load.
    pub fn new() -> (r: GatewayConfig)
        ensures
            r.services@.len() == 0,
            r.routes@.len() == 0,
            r.rate_limits@.len() == 0,
            r.whitelist_rules@.len() == 0,
    {
        GatewayConfig {
            services: Vec::new(),
            routes: Vec::new(),
            rate_limits: Vec::new(),
            whitelist_rules: Vec::new(),
        }
    }

    /// Builds a snapshot from the rows of one load, keeping the active ones.
    pub fn from_rows(
        services: Vec<BackendService>,
        routes: Vec<ApiRoute>,
        rate_limits: Vec<RateLimit>,
        whitelist_rules: Vec<WhitelistRule>,
    ) -> (r: GatewayConfig)
        ensures
            r.services@ == active_services(services@),
            r.routes@ == active_routes(routes@),
            r.rate_limits@ == active_limits(rate_limits@),
            r.whitelist_rules@ == active_rules(whitelist_rules@),
    {
        GatewayConfig {
            services: keep_active_services(services),
            routes: keep_active_routes(routes),
            rate_limits: keep_active_limits(rate_limits),
            whitelist_rules: keep_active_rules(whitelist_rules),
        }
    }

    /// Position of the service with identifier `id`.
    pub fn service_position(&self, id: u128) -> (r: Option<usize>)
        ensures
            r is None <==> service_index(self.services@, id) is None,
            r matches Some(i) ==> service_index(self.services@, id) == Some(i as int),
    {
        let mut i: usize = 0;
        while i < self.services.len()
            invariant
                i <= self.services@.len(),
                forall|j: int| 0 <= j < i ==> self.services@[j].id != id,
            decreases self.services@.len() - i,
        {
            if self.services[i].id == id {
                proof {
                    lemma_service_index(self.services@, id, i as int);
                }
                return Some(i);
            }
            i = i + 1;
        }
        proof {
            lemma_service_index(self.services@, id, i as int);
        }
        None
    }

    /// The service with identifier `id`.
    pub fn get_service(&self, id: u128) -> (r: Option<&BackendService>)
        ensures
            r is None <==> service_index(self.services@, id) is None,
            r matches Some(s) ==> *s == self.services@[service_index(self.services@, id)->0],
    {
        match self.service_position(id) {
            Some(i) => {
                proof {
                    lemma_service_index_bound(self.services@, id);
                }
                Some(&self.services[i])
            },
            None => None,
        }
    }

    /// Position of the selected route for `path` and an upper-case method name.
    pub fn route_position(&self, path: &str, upper_method: &str) -> (r: Option<usize>)
        ensures
            r is None <==> best_route(self.routes@, path@, upper_method@) is None,
            r matches Some(b) ==> best_route(self.routes@, path@, upper_method@) == Some(b as int)
                && b < self.routes@.len(),
    {
        let mut best: Option<usize> = None;
        let mut i: usize = 0;
        while i < self.routes.len()
            invariant
                i <= self.routes@.len(),
                best matches Some(b) ==> b < i,
                best is None <==> best_route(self.routes@.subrange(0, i as int), path@, upper_method@)
                    is None,
                best matches Some(b) ==> best_route(
                    self.routes@.subrange(0, i as int),
                    path@,
                    upper_method@,
                ) == Some(b as int),
            decreases self.routes@.len() - i,
        {
            let r = &self.routes[i];
            let hit = crate::text::same_text(r.method.as_str(), upper_method) && starts_with(
                path,
                r.path_pattern.as_str(),
            );
            let better = match best {
                Some(b) => self.routes[b].priority <= r.priority,
                None => true,
            };
            proof {
                let s = self.routes@.subrange(0, i + 1);
                assert(s.drop_last() =~= self.routes@.subrange(0, i as int));
                assert(s[i as int] == self.routes@[i as int]);
                if let Some(b) = best {
                    assert(s[b as int] == self.routes@[b as int]);
                }
            }
            if hit && better {
                best = Some(i);
            }
            i = i + 1;
        }
        assert(self.routes@.subrange(0, self.routes@.len() as int) =~= self.routes@);
        best
    }

    /// The selected route for `path` and an upper-case method name.
    pub fn find_route_upper(&self, path: &str, upper_method: &str) -> (r: Option<&ApiRoute>)
        ensures
            r is None <==> best_route(self.routes@, path@, upper_method@) is None,
            r matches Some(x) ==> *x == self.routes@[best_route(
                self.routes@,
                path@,
                upper_method@,
            )->0],
    {
        match self.route_position(path, upper_method) {
            Some(b) => Some(&self.routes[b]),
            None => None,
        }
    }

    /// The selected route for `path` and a method name in any letter case.
    pub fn find_route(&self, path: &str, method: &str) -> (r: Option<&ApiRoute>)
        ensures
            r is None <==> best_route(self.routes@, path@, upper_of(method@)) is None,
            r matches Some(x) ==> *x == self.routes@[best_route(
                self.routes@,
                path@,
                upper_of(method@),
            )->0],
    {
        let upper = uppercase(method);
        self.find_route_upper(path, upper.as_str())
    }

    /// Route-scoped limits of `route_id` followed by the global limits.
    pub fn rate_limits_for(&self, route_id: u128) -> (r: Vec<RateLimit>)
        ensures
            r@ == limits_keyed(self.rate_limits@, Some(route_id)) + limits_keyed(
                self.rate_limits@,
                None,
            ),
    {
        let mut scoped = limits_with_key(&self.rate_limits, Some(route_id));
        let mut global = limits_with_key(&self.rate_limits, None);
        scoped.append(&mut global);
        scoped
    }

    /// Route-scoped and global whitelist rules of `route_id`, sorted by
    /// descending priority (stable).
    pub fn whitelist_rules_for(&self, route_id: u128) -> (r: Vec<WhitelistRule>)
        ensures
            same_rules(
                r@,
                by_priority(
                    rules_keyed(self.whitelist_rules@, Some(route_id)) + rules_keyed(
                        self.whitelist_rules@,
                        None,
                    ),
                ),
            ),
    {
        let mut scoped = rules_with_key(&self.whitelist_rules, Some(route_id));
        let mut global = rules_with_key(&self.whitelist_rules, None);
        let ghost a = scoped@;
        let ghost b = global@;
        scoped.append(&mut global);
        proof {
            assert forall|i: int| 0 <= i < scoped@.len() implies #[trigger] scoped@[i].same_as(
                (rules_keyed(self.whitelist_rules@, Some(route_id)) + rules_keyed(
                    self.whitelist_rules@,
                    None,
                ))[i],
            ) by {
                if i < a.len() {
                    assert(scoped@[i] == a[i]);
                } else {
                    assert(scoped@[i] == b[i - a.len()]);
                }
            }
        }
        sort_by_priority(scoped)
    }
}

proof fn lemma_service_index(s: Seq<BackendService>, id: u128, i: int)
    requires
        0 <= i <= s.len(),
        forall|j: int| 0 <= j < i ==> s[j].id != id,
        i == s.len() || s[i].id == id,
    ensures
        i < s.len() ==> service_index(s, id) == Some(i),
        i == s.len() ==> service_index(s, id) is None,
    decreases s.len(),
{
    if s.len() > 0 && i > 0 {
        assert forall|j: int| 0 <= j < i - 1 implies s.drop_first()[j].id != id by {
            assert(s[j + 1].id != id);
        }
        lemma_service_index(s.drop_first(), id, i - 1);
    }
}

/// The index `service_index` finds is in range and holds the identifier.
pub proof fn lemma_service_index_bound(s: Seq<BackendService>, id: u128)
    ensures
        service_index(s, id) matches Some(i) ==> 0 <= i < s.len() && s[i].id == id,
    decreases s.len(),
{
    if s.len() > 0 {
        lemma_service_index_bound(s.drop_first(), id);
    }
}

fn keep_active_services(rows: Vec<BackendService>) -> (r: Vec<BackendService>)
    ensures
        r@ == active_services(rows@),
{
    let ghost all = rows@;
    let _count: usize = rows.len();
    let mut rest = rows;
    let mut out: Vec<BackendService> = Vec::new();
    let mut k: usize = 0;
    while rest.len() > 0
        invariant
            k <= all.len() <= usize::MAX,
            rest@ == all.subrange(k as int, all.len() as int),
            out@ == active_services(all.subrange(0, k as int)),
        decreases rest@.len(),
    {
        let x = rest.remove(0);
        proof {
            let p = all.subrange(0, k + 1);
            assert(p.drop_last() =~= all.subrange(0, k as int));
            assert(p.last() == x);
        }
        if x.is_active {
            out.push(x);
        }
        k = k + 1;
        assert(rest@ =~= all.subrange(k as int, all.len() as int));
    }
    assert(all.subrange(0, k as int) =~= all);
    out
}

fn keep_active_routes(rows: Vec<ApiRoute>) -> (r: Vec<ApiRoute>)
    ensures
        r@ == active_routes(rows@),
{
    let ghost all = rows@;
    let _count: usize = rows.len();
    let mut rest = rows;
    let mut out: Vec<ApiRoute> = Vec::new();
    let mut k: usize = 0;
    while rest.len() > 0
        invariant
            k <= all.len() <= usize::MAX,
            rest@ == all.subrange(k as int, all.len() as int),
            out@ == active_routes(all.subrange(0, k as int)),
        decreases rest@.len(),
    {
        let x = rest.remove(0);
        proof {
            let p = all.subrange(0, k + 1);
            assert(p.drop_last() =~= all.subrange(0, k as int));
            assert(p.last() == x);
        }
        if x.is_active {
            out.push(x);
        }
        k = k + 1;
        assert(rest@ =~= all.subrange(k as int, all.len() as int));
    }
    assert(all.subrange(0, k as int) =~= all);
    out
}

fn keep_active_limits(rows: Vec<RateLimit>) -> (r: Vec<RateLimit>)
    ensures
        r@ == active_limits(rows@),
{
    let ghost all = rows@;
    let _count: usize = rows.len();
    let mut rest = rows;
    let mut out: Vec<RateLimit> = Vec::new();
    let mut k: usize = 0;
    while rest.len() > 0
        invariant
            k <= all.len() <= usize::MAX,
            rest@ == all.subrange(k as int, all.len() as int),
            out@ == active_limits(all.subrange(0, k as int)),
        decreases rest@.len(),
    {
        let x = rest.remove(0);
        proof {
            let p = all.subrange(0, k + 1);
            assert(p.drop_last() =~= all.subrange(0, k as int));
            assert(p.last() == x);
        }
        if x.is_active {
            out.push(x);
        }
        k = k + 1;
        assert(rest@ =~= all.subrange(k as int, all.len() as int));
    }
    assert(all.subrange(0, k as int) =~= all);
    out
}

fn keep_active_rules(rows: Vec<WhitelistRule>) -> (r: Vec<WhitelistRule>)
    ensures
        r@ == active_rules(rows@),
{
    let ghost all = rows@;
    let _count: usize = rows.len();
    let mut rest = rows;
    let mut out: Vec<WhitelistRule> = Vec::new();
    let mut k: usize = 0;
    while rest.len() > 0
        invariant
            k <= all.len() <= usize::MAX,
            rest@ == all.subrange(k as int, all.len() as int),
            out@ == active_rules(all.subrange(0, k as int)),
        decreases rest@.len(),
    {
        let x = rest.remove(0);
        proof {
            let p = all.subrange(0, k + 1);
            assert(p.drop_last() =~= all.subrange(0, k as int));
            assert(p.last() == x);
        }
        if x.is_active {
            out.push(x);
        }
        k = k + 1;
        assert(rest@ =~= all.subrange(k as int, all.len() as int));
    }
    assert(all.subrange(0, k as int) =~= all);
    out
}

fn limits_with_key(s: &Vec<RateLimit>, key: Option<u128>) -> (r: Vec<RateLimit>)
    ensures
        r@ == limits_keyed(s@, key),
{
    let mut out: Vec<RateLimit> = Vec::new();
    let mut i: usize = 0;
    while i < s.len()
        invariant
            i <= s@.len(),
            out@ == limits_keyed(s@.subrange(0, i as int), key),
        decreases s@.len() - i,
    {
        proof {
            let p = s@.subrange(0, i + 1);
            assert(p.drop_last() =~= s@.subrange(0, i as int));
        }
        if s[i].api_route_id == key {
            out.push(s[i].duplicate());
        }
        i = i + 1;
    }
    assert(s@.subrange(0, i as int) =~= s@);
    out
}

fn rules_with_key(s: &Vec<WhitelistRule>, key: Option<u128>) -> (r: Vec<WhitelistRule>)
    ensures
        same_rules(r@, rules_keyed(s@, key)),
{
    let mut out: Vec<WhitelistRule> = Vec::new();
    let mut i: usize = 0;
    while i < s.len()
        invariant
            i <= s@.len(),
            same_rules(out@, rules_keyed(s@.subrange(0, i as int), key)),
        decreases s@.len() - i,
    {
        proof {
            let p = s@.subrange(0, i + 1);
            assert(p.drop_last() =~= s@.subrange(0, i as int));
        }
        if s[i].api_route_id == key {
            let c = s[i].duplicate();
            let ghost before = out@;
            out.push(c);
            proof {
                let p = s@.subrange(0, i + 1);
                assert(rules_keyed(p, key) == rules_keyed(s@.subrange(0, i as int), key).push(s@[i as int]));
                assert forall|j: int| 0 <= j < out@.len() implies #[trigger] out@[j].same_as(rules_keyed(p, key)[j]) by {
                    if j < out@.len() - 1 {
                        assert(out@[j] == before[j]);
                    }
                }
            }
        }
        i = i + 1;
    }
    assert(s@.subrange(0, i as int) =~= s@);
    out
}

proof fn lemma_insert_same(a: Seq<WhitelistRule>, b: Seq<WhitelistRule>, x: WhitelistRule, y: WhitelistRule)
    requires
        same_rules(a, b),
        x.same_as(y),
    ensures
        same_rules(insert_by_priority(a, x), insert_by_priority(b, y)),
    decreases a.len(),
{
    if a.len() > 0 {
        assert(a.last().same_as(b.last()));
        if a.last().priority < x.priority {
            assert(same_rules(a.drop_last(), b.drop_last())) by {
                assert forall|i: int| 0 <= i < a.drop_last().len() implies #[trigger] a.drop_last()[i].same_as(b.drop_last()[i]) by {
                    assert(a[i].same_as(b[i]));
                }
            }
            lemma_insert_same(a.drop_last(), b.drop_last(), x, y);
            let ia = insert_by_priority(a.drop_last(), x);
            let ib = insert_by_priority(b.drop_last(), y);
            assert forall|i: int| 0 <= i < ia.push(a.last()).len() implies #[trigger] ia.push(a.last())[i].same_as(ib.push(b.last())[i]) by {
                if i < ia.len() {
                    assert(ia[i].same_as(ib[i]));
                }
            }
        } else {
            assert forall|i: int| 0 <= i < a.push(x).len() implies #[trigger] a.push(x)[i].same_as(b.push(y)[i]) by {
                if i < a.len() {
                    assert(a[i].same_as(b[i]));
                }
            }
        }
    }
}

/// Index at which `insert_by_priority` places an element of priority `p`.
spec fn insert_pos(s: Seq<WhitelistRule>, p: i32) -> int
    decreases s.len(),
{
    if s.len() == 0 {
        0
    } else if s.last().priority < p {
        insert_pos(s.drop_last(), p)
    } else {
        s.len() as int
    }
}

proof fn lemma_insert_at(s: Seq<WhitelistRule>, x: WhitelistRule)
    ensures
        0 <= insert_pos(s, x.priority) <= s.len(),
        insert_by_priority(s, x) == s.insert(insert_pos(s, x.priority), x),
    decreases s.len(),
{
    if s.len() > 0 {
        if s.last().priority < x.priority {
            lemma_insert_at(s.drop_last(), x);
            let k = insert_pos(s.drop_last(), x.priority);
            assert(s.drop_last().insert(k, x).push(s.last()) =~= s.insert(k, x));
        } else {
            assert(s.push(x) =~= s.insert(s.len() as int, x));
        }
    } else {
        assert(seq![x] =~= s.insert(0, x));
    }
}

proof fn lemma_insert_pos_scan(s: Seq<WhitelistRule>, p: i32, k: int)
    requires
        0 <= k <= s.len(),
        forall|j: int| k <= j < s.len() ==> s[j].priority < p,
        k == 0 || s[k - 1].priority >= p,
    ensures
        insert_pos(s, p) == k,
    decreases s.len(),
{
    if s.len() > 0 && k < s.len() {
        assert forall|j: int| k <= j < s.drop_last().len() implies s.drop_last()[j].priority < p by {
            assert(s[j].priority < p);
        }
        lemma_insert_pos_scan(s.drop_last(), p, k);
    }
}

fn sort_by_priority(v: Vec<WhitelistRule>) -> (r: Vec<WhitelistRule>)
    ensures
        forall|w: Seq<WhitelistRule>| same_rules(v@, w) ==> same_rules(r@, #[trigger] by_priority(w)),
{
    let ghost all = v@;
    let _count: usize = v.len();
    let mut rest = v;
    let mut out: Vec<WhitelistRule> = Vec::new();
    let mut k: usize = 0;
    while rest.len() > 0
        invariant
            k <= all.len() <= usize::MAX,
            rest@ == all.subrange(k as int, all.len() as int),
            out@ == by_priority(all.subrange(0, k as int)),
        decreases rest@.len(),
    {
        let x = rest.remove(0);
        proof {
            let p = all.subrange(0, k + 1);
            assert(p.drop_last() =~= all.subrange(0, k as int));
            assert(p.last() == x);
            lemma_insert_at(out@, x);
        }
        let mut j: usize = out.len();
        while j > 0 && out[j - 1].priority < x.priority
            invariant
                j <= out@.len(),
                forall|t: int| j <= t < out@.len() ==> out@[t].priority < x.priority,
            decreases j,
        {
            j = j - 1;
        }
        proof {
            lemma_insert_pos_scan(out@, x.priority, j as int);
        }
        out.insert(j, x);
        k = k + 1;
        assert(rest@ =~= all.subrange(k as int, all.len() as int));
    }
    assert(all.subrange(0, k as int) =~= all);
    proof {
        assert forall|w: Seq<WhitelistRule>| same_rules(all, w) implies same_rules(out@, #[trigger] by_priority(w)) by {
            lemma_by_priority_same(all, w);
        }
    }
    out
}

proof fn lemma_by_priority_same(a: Seq<WhitelistRule>, b: Seq<WhitelistRule>)
    requires
        same_rules(a, b),
    ensures
        same_rules(by_priority(a), by_priority(b)),
    decreases a.len(),
{
    if a.len() > 0 {
        assert(same_rules(a.drop_last(), b.drop_last())) by {
            assert forall|i: int| 0 <= i < a.drop_last().len() implies #[trigger] a.drop_last()[i].same_as(b.drop_last()[i]) by {
                assert(a[i].same_as(b[i]));
            }
        }
        lemma_by_priority_same(a.drop_last(), b.drop_last());
        assert(a.last().same_as(b.last()));
        lemma_insert_same(by_priority(a.drop_last()), by_priority(b.drop_last()), a.last(), b.last());
    }
}

} // verus!
