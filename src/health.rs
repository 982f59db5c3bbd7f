//! Backend health: probe classification, the status table, and the check the
//! data plane applies.
use vstd::prelude::*;

use dashmap::DashMap;

use crate::models::BackendService;
use crate::snapshot::GatewayConfig;
use crate::text::is_prefix;
use crate::text::starts_with;

verus! {

#[verifier::external_type_specification]
#[verifier::external_body]
#[verifier::reject_recursive_types(K)]
#[verifier::reject_recursive_types(V)]
#[verifier::reject_recursive_types(S)]
pub struct ExDashMap<K, V, S>(DashMap<K, V, S>);

/// Health of a backend service.
#[derive(Clone, Copy, Debug, PartialEq, Eq, Structural)]
pub enum HealthStatus {
    Healthy,
    Unhealthy,
    /// Never probed.
    Unknown,
}

/// Traffic goes through unless the service was last seen unhealthy.
pub open spec fn takes_traffic(entry: Option<HealthStatus>) -> bool {
    entry != Some(HealthStatus::Unhealthy)
}

/// A probe answered with a 2xx status is healthy; any other status, a
/// timeout or a connection error (`None`) is unhealthy.
pub open spec fn probe_result(status_code: Option<u16>) -> HealthStatus {
    match status_code {
        Some(c) => if 200 <= c && c <= 299 {
            HealthStatus::Healthy
        } else {
            HealthStatus::Unhealthy
        },
        None => HealthStatus::Unhealthy,
    }
}

/// The URL probed for a service: an absolute health URL as it is, a relative
/// one appended to the base URL; `None` when the service has none.
pub open spec fn probe_url_of(s: BackendService) -> Option<Seq<char>> {
    match s.health_check_url {
        None => None,
        Some(u) => if is_prefix("http://"@, u@) || is_prefix("https://"@, u@) {
            Some(u@)
        } else {
            Some(s.base_url@ + u@)
        },
    }
}

/// Entry `(id, url)` probes a service of `services` with identifier `id` at `url`.
pub open spec fn is_probe_target(services: Seq<BackendService>, id: u128, url: Seq<char>) -> bool {
    exists|j: int| #![trigger services[j]] 0 <= j < services.len() && services[j].id == id && probe_url_of(services[j]) == Some(url)
}

/// Relies on `dashmap::DashMap::new`: an empty map.
#[verifier::external_body]
fn new_status_map() -> (r: DashMap<u128, HealthStatus>) {
    DashMap::new()
}

/// Relies on `dashmap::DashMap::get`: the entry at the time of the call;
/// other tasks update the map concurrently, so nothing is known of it here.
#[verifier::external_body]
fn lookup_status(m: &DashMap<u128, HealthStatus>, id: u128) -> (r: Option<HealthStatus>) {
    m.get(&id).map(|e| *e)
}

/// Relies on `dashmap::DashMap::insert`: sets the entry through a shared
/// reference and returns the one it replaced.
#[verifier::external_body]
fn store_status(m: &DashMap<u128, HealthStatus>, id: u128, status: HealthStatus) -> (r: Option<HealthStatus>) {
    m.insert(id, status)
}

/// Relies on `dashmap::DashMap::iter`: the entries, each read under its
/// shard's lock.
#[verifier::external_body]
fn list_statuses(m: &DashMap<u128, HealthStatus>) -> (r: Vec<(u128, HealthStatus)>) {
    m.iter().map(|e| (*e.key(), *e.value())).collect()
}

/// What a probe changed.
#[derive(Clone, Copy, Debug, PartialEq, Eq, Structural)]
pub struct StatusChange {
    pub previous: Option<HealthStatus>,
    pub current: HealthStatus,
}

impl StatusChange {
    /// The status differs from the one recorded before.
    pub fn changed(&self) -> (r: bool)
        ensures
            r == (self.previous != Some(self.current)),
    {
        match self.previous {
            Some(p) => p != self.current,
            None => true,
        }
    }
}

/// Concurrent table of service health, written by the probe task and read by
/// every request.
pub struct HealthChecker {
    service_health: DashMap<u128, HealthStatus>,
}

impl HealthChecker {
    /// A checker that has probed nothing.
    pub fn new() -> (r: HealthChecker) {
        HealthChecker { service_health: new_status_map() }
    }

    /// Whether a table entry lets traffic through.
    pub fn admits(entry: Option<HealthStatus>) -> (r: bool)
        ensures
            r == takes_traffic(entry),
    {
        match entry {
            Some(HealthStatus::Unhealthy) => false,
            _ => true,
        }
    }

    /// The status a table entry stands for.
    pub fn status_of(entry: Option<HealthStatus>) -> (r: HealthStatus)
        ensures
            entry matches Some(s) ==> r == s,
            entry is None ==> r == HealthStatus::Unknown,
    {
        match entry {
            Some(s) => s,
            None => HealthStatus::Unknown,
        }
    }

    /// Classifies a probe by its HTTP status (`None`: no response).
    pub fn classify(status_code: Option<u16>) -> (r: HealthStatus)
        ensures
            r == probe_result(status_code),
    {
        match status_code {
            Some(c) => if 200 <= c && c <= 299 {
                HealthStatus::Healthy
            } else {
                HealthStatus::Unhealthy
            },
            None => HealthStatus::Unhealthy,
        }
    }

    /// The current table entry of a service.
    pub fn entry(&self, service_id: u128) -> Option<HealthStatus> {
        lookup_status(&self.service_health, service_id)
    }

    /// Whether traffic may go to the service; never-probed services pass.
    pub fn is_healthy(&self, service_id: u128) -> (r: bool) {
        Self::admits(self.entry(service_id))
    }

    /// The status of a service; `Unknown` when it was never probed.
    pub fn get_status(&self, service_id: u128) -> (r: HealthStatus) {
        Self::status_of(self.entry(service_id))
    }

    /// Records the outcome of a probe.
    pub fn record_probe(&self, service_id: u128, status_code: Option<u16>) -> (r: StatusChange)
        ensures
            r.current == probe_result(status_code),
    {
        let current = Self::classify(status_code);
        let previous = store_status(&self.service_health, service_id, current);
        StatusChange { previous, current }
    }

    /// Every recorded status.
    pub fn get_all_statuses(&self) -> Vec<(u128, HealthStatus)> {
        list_statuses(&self.service_health)
    }

    /// The URL to probe for a service, if it has a health URL.
    pub fn probe_url(service: &BackendService) -> (r: Option<String>)
        ensures
            crate::text::opt_string(r) == probe_url_of(*service),
    {
        match &service.health_check_url {
            None => None,
            Some(u) => {
                if starts_with(u.as_str(), "http://") || starts_with(u.as_str(), "https://") {
                    Some(u.clone())
                } else {
                    let mut full = service.base_url.clone();
                    full.append(u.as_str());
                    Some(full)
                }
            },
        }
    }

    /// `(service id, probe URL)` for every service of the snapshot that has a
    /// health URL, in snapshot order.
    pub fn probe_targets(cfg: &GatewayConfig) -> (r: Vec<(u128, String)>)
        ensures
            forall|i: int| #![trigger r@[i]] 0 <= i < r@.len() ==> is_probe_target(cfg.services@, r@[i].0, r@[i].1@),
            forall|j: int| #![trigger cfg.services@[j]] 0 <= j < cfg.services@.len() && cfg.services@[j].health_check_url
                is Some ==> exists|i: int| #![trigger r@[i]] 0 <= i < r@.len() && r@[i].0 == cfg.services@[j].id,
    {
        let mut out: Vec<(u128, String)> = Vec::new();
        let mut k: usize = 0;
        while k < cfg.services.len()
            invariant
                k <= cfg.services@.len(),
                forall|i: int| #![trigger out@[i]] 0 <= i < out@.len() ==> is_probe_target(cfg.services@, out@[i].0, out@[i].1@),
                forall|j: int| #![trigger cfg.services@[j]] 0 <= j < k && cfg.services@[j].health_check_url is Some
                    ==> exists|i: int| #![trigger out@[i]] 0 <= i < out@.len() && out@[i].0 == cfg.services@[j].id,
            decreases cfg.services@.len() - k,
        {
            let s = &cfg.services[k];
            let ghost before = out@;
            match Self::probe_url(s) {
                Some(u) => {
                    out.push((s.id, u));
                    proof {
                        assert(cfg.services@[k as int] == *s);
                        assert forall|i: int| #![trigger out@[i]] 0 <= i < out@.len() implies is_probe_target(cfg.services@, out@[i].0, out@[i].1@) by {
                            if i < before.len() {
                                assert(out@[i] == before[i]);
                            }
                        }
                        assert forall|j: int| #![trigger cfg.services@[j]] 0 <= j < k + 1 && cfg.services@[j].health_check_url is Some
                            implies exists|i: int| #![trigger out@[i]] 0 <= i < out@.len() && out@[i].0 == cfg.services@[j].id by {
                            if j < k {
                                let i = choose|i: int| #![trigger before[i]] 0 <= i < before.len() && before[i].0 == cfg.services@[j].id;
                                assert(out@[i] == before[i]);
                            } else {
                                assert(out@[before.len() as int].0 == cfg.services@[j].id);
                            }
                        }
                    }
                },
                None => {
                    assert(cfg.services@[k as int] == *s);
                },
            }
            k = k + 1;
        }
        out
    }
}

} // verus!
