//! Whitelist evaluation: a request is admitted by the first rule that
//! matches it, and denied when rules exist and none matches.
use vstd::prelude::*;

use crate::models::RuleType;
use crate::models::WhitelistRule;
use crate::request::RequestInfo;
use crate::text::before_char;
use crate::text::contains_char;
use crate::text::has_char;
use crate::text::is_prefix;
use crate::text::opt_text;
use crate::text::prefix_before;
use crate::text::same_text;
use crate::text::starts_with;

verus! {

/// Number of occurrences of `c` in `s`.
pub open spec fn count_char(s: Seq<char>, c: char) -> nat
    decreases s.len(),
{
    if s.len() == 0 {
        0
    } else {
        count_char(s.drop_last(), c) + if s.last() == c {
            1nat
        } else {
            0nat
        }
    }
}

/// An allowed address matches the client when they are equal; of an entry
/// with a `/n` suffix only the address part is compared.
pub open spec fn ip_match(client: Seq<char>, pattern: Seq<char>) -> bool {
    if has_char(pattern, '/') {
        client == before_char(pattern, '/')
    } else {
        client == pattern
    }
}

/// `Authorization` holds `Bearer ` followed by a token of three dot-separated parts.
pub open spec fn bearer_ok(auth: Seq<char>) -> bool {
    is_prefix("Bearer "@, auth) && count_char(auth.subrange("Bearer "@.len() as int, auth.len() as int), '.')
        == 2
}

/// Whether `rule` admits the request from `client_ip`.
pub open spec fn rule_admits(rule: WhitelistRule, req: RequestInfo, client_ip: Option<Seq<char>>) -> bool {
    match rule.rule_type {
        RuleType::Ip => match (client_ip, rule.config.allowed_ips) {
            (Some(c), Some(l)) => exists|i: int| 0 <= i < l@.len() && ip_match(c, #[trigger] l@[i]@),
            _ => false,
        },
        RuleType::ApiKey => match (req.api_key, rule.config.allowed_keys) {
            (Some(k), Some(l)) => exists|i: int| 0 <= i < l@.len() && #[trigger] l@[i]@ == k@,
            _ => false,
        },
        RuleType::Jwt => match req.authorization {
            Some(a) => bearer_ok(a@),
            None => false,
        },
        RuleType::Custom => false,
    }
}

/// Index of the first rule of `rules` that admits the request.
pub open spec fn first_admitting(rules: Seq<WhitelistRule>, req: RequestInfo, client_ip: Option<Seq<char>>) -> Option<int>
    decreases rules.len(),
{
    if rules.len() == 0 {
        None
    } else if rule_admits(rules[0], req, client_ip) {
        Some(0)
    } else {
        match first_admitting(rules.drop_first(), req, client_ip) {
            Some(i) => Some(i + 1),
            None => None,
        }
    }
}

/// The verdict on a request: admitted when there are no rules or some rule
/// admits it, with the name of the first admitting rule.
pub open spec fn whitelist_verdict(rules: Seq<WhitelistRule>, req: RequestInfo, client_ip: Option<Seq<char>>) -> (bool, Option<Seq<char>>) {
    if rules.len() == 0 {
        (true, None)
    } else {
        match first_admitting(rules, req, client_ip) {
            Some(i) => (true, Some(rules[i].rule_name@)),
            None => (false, None),
        }
    }
}

proof fn lemma_first_admitting(rules: Seq<WhitelistRule>, req: RequestInfo, ip: Option<Seq<char>>, i: int)
    requires
        0 <= i <= rules.len(),
        forall|j: int| 0 <= j < i ==> !rule_admits(#[trigger] rules[j], req, ip),
        i == rules.len() || rule_admits(rules[i], req, ip),
    ensures
        i < rules.len() ==> first_admitting(rules, req, ip) == Some(i),
        i == rules.len() ==> first_admitting(rules, req, ip) is None,
    decreases rules.len(),
{
    if rules.len() > 0 && i > 0 {
        assert forall|j: int| 0 <= j < i - 1 implies !rule_admits(#[trigger] rules.drop_first()[j], req, ip) by {
            assert(rules.drop_first()[j] == rules[j + 1]);
        }
        lemma_first_admitting(rules.drop_first(), req, ip, i - 1);
    }
}

proof fn lemma_first_same(a: Seq<WhitelistRule>, b: Seq<WhitelistRule>, req: RequestInfo, ip: Option<Seq<char>>)
    requires
        crate::snapshot::same_rules(a, b),
    ensures
        first_admitting(a, req, ip) == first_admitting(b, req, ip),
    decreases a.len(),
{
    if a.len() > 0 {
        assert(a[0].same_as(b[0]));
        assert(rule_admits(a[0], req, ip) == rule_admits(b[0], req, ip));
        assert(crate::snapshot::same_rules(a.drop_first(), b.drop_first())) by {
            assert forall|i: int| 0 <= i < a.drop_first().len() implies #[trigger] a.drop_first()[i].same_as(b.drop_first()[i]) by {
                assert(a[i + 1].same_as(b[i + 1]));
            }
        }
        lemma_first_same(a.drop_first(), b.drop_first(), req, ip);
    }
}

/// Copies of the same rules give the same verdict.
pub proof fn lemma_verdict_same(a: Seq<WhitelistRule>, b: Seq<WhitelistRule>, req: RequestInfo, ip: Option<Seq<char>>)
    requires
        crate::snapshot::same_rules(a, b),
    ensures
        whitelist_verdict(a, req, ip) == whitelist_verdict(b, req, ip),
{
    lemma_first_same(a, b, req, ip);
    if let Some(i) = first_admitting(a, req, ip) {
        lemma_first_bound(a, req, ip);
        assert(a[i].same_as(b[i]));
    }
}

proof fn lemma_first_bound(rules: Seq<WhitelistRule>, req: RequestInfo, ip: Option<Seq<char>>)
    ensures
        first_admitting(rules, req, ip) matches Some(i) ==> 0 <= i < rules.len() && rule_admits(rules[i], req, ip),
    decreases rules.len(),
{
    if rules.len() > 0 {
        lemma_first_bound(rules.drop_first(), req, ip);
    }
}

/// A request that some rule admits is admitted, whatever the other rules say.
pub proof fn lemma_any_rule_admits(rules: Seq<WhitelistRule>, req: RequestInfo, client_ip: Option<Seq<char>>, k: int)
    requires
        0 <= k < rules.len(),
        rule_admits(rules[k], req, client_ip),
    ensures
        whitelist_verdict(rules, req, client_ip).0,
    decreases rules.len(),
{
    if k > 0 && !rule_admits(rules[0], req, client_ip) {
        assert(rules.drop_first()[k - 1] == rules[k]);
        lemma_any_rule_admits(rules.drop_first(), req, client_ip, k - 1);
    }
}

/// Evaluates whitelist rules against requests.
pub struct WhitelistValidator;

impl WhitelistValidator {
    /// `(allowed, rule_name)`: allowed with no name when `rules` is empty;
    /// allowed with the name of the first admitting rule; denied otherwise.
    pub fn validate_request(rules: &Vec<WhitelistRule>, req: &RequestInfo, client_ip: Option<&str>) -> (r: (bool, Option<String>))
        ensures
            r.0 == whitelist_verdict(rules@, *req, opt_text(client_ip)).0,
            r.1 matches Some(n) ==> whitelist_verdict(rules@, *req, opt_text(client_ip)).1 == Some(n@),
            r.1 is None ==> whitelist_verdict(rules@, *req, opt_text(client_ip)).1 is None,
    {
        if rules.len() == 0 {
            return (true, None);
        }
        let mut i: usize = 0;
        while i < rules.len()
            invariant
                i <= rules@.len(),
                forall|j: int| 0 <= j < i ==> !rule_admits(#[trigger] rules@[j], *req, opt_text(client_ip)),
            decreases rules@.len() - i,
        {
            let rule = &rules[i];
            let allowed = match rule.rule_type {
                RuleType::Ip => Self::validate_ip_rule(rule, client_ip),
                RuleType::ApiKey => Self::validate_api_key_rule(rule, req),
                RuleType::Jwt => Self::validate_jwt_rule(req),
                RuleType::Custom => false,
            };
            if allowed {
                proof {
                    lemma_first_admitting(rules@, *req, opt_text(client_ip), i as int);
                }
                return (true, Some(rule.rule_name.clone()));
            }
            i = i + 1;
        }
        proof {
            lemma_first_admitting(rules@, *req, opt_text(client_ip), i as int);
        }
        (false, None)
    }

    /// Whether the client address matches an allowed address or `a.b.c.d/n`
    /// entry (address part compared literally).
    pub fn ip_matches(client_ip: &str, allowed_pattern: &str) -> (r: bool)
        ensures
            r == ip_match(client_ip@, allowed_pattern@),
    {
        if contains_char(allowed_pattern, '/') {
            same_text(client_ip, prefix_before(allowed_pattern, '/'))
        } else {
            same_text(client_ip, allowed_pattern)
        }
    }

    fn validate_ip_rule(rule: &WhitelistRule, client_ip: Option<&str>) -> (r: bool)
        requires
            rule.rule_type == RuleType::Ip,
        ensures
            r == match (opt_text(client_ip), rule.config.allowed_ips) {
                (Some(c), Some(l)) => exists|i: int| 0 <= i < l@.len() && ip_match(c, #[trigger] l@[i]@),
                _ => false,
            },
    {
        let ip = match client_ip {
            Some(ip) => ip,
            None => return false,
        };
        let allowed = match &rule.config.allowed_ips {
            Some(l) => l,
            None => return false,
        };
        let mut i: usize = 0;
        while i < allowed.len()
            invariant
                i <= allowed@.len(),
                rule.config.allowed_ips == Some(*allowed),
                client_ip == Some(ip),
                forall|j: int| 0 <= j < i ==> !ip_match(ip@, #[trigger] allowed@[j]@),
            decreases allowed@.len() - i,
        {
            if Self::ip_matches(ip, allowed[i].as_str()) {
                assert(ip_match(ip@, allowed@[i as int]@));
                assert(opt_text(client_ip) == Some(ip@));
                let ghost l = rule.config.allowed_ips->0;
                assert(l@[i as int]@ == allowed@[i as int]@);
                assert(exists|k: int| 0 <= k < l@.len() && ip_match(ip@, #[trigger] l@[k]@));
                return true;
            }
            i = i + 1;
        }
        false
    }

    fn validate_api_key_rule(rule: &WhitelistRule, req: &RequestInfo) -> (r: bool)
        requires
            rule.rule_type == RuleType::ApiKey,
        ensures
            r == rule_admits(*rule, *req, None),
    {
        let key = match &req.api_key {
            Some(k) => k,
            None => return false,
        };
        let allowed = match &rule.config.allowed_keys {
            Some(l) => l,
            None => return false,
        };
        let mut i: usize = 0;
        while i < allowed.len()
            invariant
                i <= allowed@.len(),
                rule.config.allowed_keys == Some(*allowed),
                rule.rule_type == RuleType::ApiKey,
                req.api_key == Some(*key),
                forall|j: int| 0 <= j < i ==> #[trigger] allowed@[j]@ != key@,
            decreases allowed@.len() - i,
        {
            if allowed[i] == *key {
                let ghost l = rule.config.allowed_keys->0;
                assert(l@[i as int]@ == key@);
                assert(exists|k: int| 0 <= k < l@.len() && #[trigger] l@[k]@ == key@);
                return true;
            }
            i = i + 1;
        }
        false
    }

    fn validate_jwt_rule(req: &RequestInfo) -> (r: bool)
        ensures
            r == match req.authorization {
                Some(a) => bearer_ok(a@),
                None => false,
            },
    {
        let auth = match &req.authorization {
            Some(a) => a,
            None => return false,
        };
        if !starts_with(auth.as_str(), "Bearer ") {
            return false;
        }
        proof {
            reveal_strlit("Bearer ");
        }
        let n = auth.as_str().unicode_len();
        let token = auth.as_str().substring_char(7, n);
        count_dots(token) == 2
    }
}

fn count_dots(s: &str) -> (r: usize)
    ensures
        r == count_char(s@, '.'),
{
    let n = s.unicode_len();
    let mut c: usize = 0;
    let mut i: usize = 0;
    while i < n
        invariant
            n == s@.len(),
            i <= n,
            c == count_char(s@.subrange(0, i as int), '.'),
            c <= i,
        decreases n - i,
    {
        proof {
            assert(s@.subrange(0, i + 1).drop_last() =~= s@.subrange(0, i as int));
        }
        if s.get_char(i) == '.' {
            c = c + 1;
        }
        i = i + 1;
    }
    assert(s@.subrange(0, n as int) =~= s@);
    c
}

} // verus!
