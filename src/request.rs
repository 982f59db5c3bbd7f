//! What the data plane reads of an inbound request.
use vstd::prelude::*;

use crate::models::IdentifierType;
use crate::text::before_char;
use crate::text::opt_string;
use crate::text::prefix_before;
use crate::text::trim;
use crate::text::trimmed;

verus! {

/// An inbound request as the policies see it. A header that is absent or
/// whose value is not valid text is `None`.
#[derive(Debug)]
pub struct RequestInfo {
    pub method: String,
    /// Path without the query string.
    pub path: String,
    pub query: Option<String>,
    /// `Host` header.
    pub host: Option<String>,
    /// `X-Forwarded-For` header.
    pub forwarded_for: Option<String>,
    /// `X-API-Key` header.
    pub api_key: Option<String>,
    /// `Authorization` header.
    pub authorization: Option<String>,
    /// `X-User-ID` header.
    pub user_id: Option<String>,
    /// `User-Agent` header.
    pub user_agent: Option<String>,
    /// Address of the peer socket without its port.
    pub peer_ip: Option<String>,
    /// The request arrived over TLS.
    pub inbound_tls: bool,
}

/// The client address: the first comma-separated value of `X-Forwarded-For`,
/// trimmed, when the header is present; the peer address otherwise.
pub open spec fn client_ip_of(req: RequestInfo) -> Option<Seq<char>> {
    match req.forwarded_for {
        Some(f) => Some(trimmed(before_char(f@, ','))),
        None => opt_string(req.peer_ip),
    }
}

/// The value under which a limit of type `t` counts this request.
pub open spec fn identifier_of(req: RequestInfo, t: IdentifierType) -> Seq<char> {
    match t {
        IdentifierType::Ip => match client_ip_of(req) {
            Some(ip) => ip,
            None => "unknown"@,
        },
        IdentifierType::ApiKey => match req.api_key {
            Some(k) => k@,
            None => "no-api-key"@,
        },
        IdentifierType::UserId => match req.user_id {
            Some(u) => u@,
            None => "no-user-id"@,
        },
        IdentifierType::Global => "global"@,
    }
}

impl RequestInfo {
    /// The client address of the request.
    pub fn client_ip(&self) -> (r: Option<String>)
        ensures
            opt_string(r) == client_ip_of(*self),
    {
        match &self.forwarded_for {
            Some(f) => {
                let first = prefix_before(f.as_str(), ',');
                Some(String::from_str(trim(first)))
            },
            None => match &self.peer_ip {
                Some(p) => Some(p.clone()),
                None => None,
            },
        }
    }

    /// The rate-limit identifier of the request for identifier type `t`.
    pub fn identifier(&self, t: IdentifierType) -> (r: String)
        ensures
            r@ == identifier_of(*self, t),
    {
        match t {
            IdentifierType::Ip => match self.client_ip() {
                Some(ip) => ip,
                None => String::from_str("unknown"),
            },
            IdentifierType::ApiKey => match &self.api_key {
                Some(k) => k.clone(),
                None => String::from_str("no-api-key"),
            },
            IdentifierType::UserId => match &self.user_id {
                Some(u) => u.clone(),
                None => String::from_str("no-user-id"),
            },
            IdentifierType::Global => String::from_str("global"),
        }
    }
}

} // verus!
