//! Audit records of security-relevant outcomes.
use vstd::prelude::*;

use crate::ids::random_id;

verus! {

/// Relies on `chrono::Utc::now` and `DateTime::timestamp_millis`: the current
/// time in milliseconds since the Unix epoch; nothing is known of its value.
#[verifier::external_body]
pub(crate) fn now_millis() -> (r: i64) {
    chrono::Utc::now().timestamp_millis()
}

/// What happened.
#[derive(Clone, Copy, Debug, PartialEq, Eq, Structural)]
pub enum AuditEventType {
    RateLimitExceeded,
    WhitelistDenied,
    AuthenticationFailed,
    AuthorizationDenied,
    InvalidRequest,
    BackendError,
    ConfigurationChanged,
}

impl AuditEventType {
    /// Stored name of the event type.
    pub open spec fn text(self) -> Seq<char> {
        match self {
            AuditEventType::RateLimitExceeded => "rate_limit_exceeded"@,
            AuditEventType::WhitelistDenied => "whitelist_denied"@,
            AuditEventType::AuthenticationFailed => "authentication_failed"@,
            AuditEventType::AuthorizationDenied => "authorization_denied"@,
            AuditEventType::InvalidRequest => "invalid_request"@,
            AuditEventType::BackendError => "backend_error"@,
            AuditEventType::ConfigurationChanged => "configuration_changed"@,
        }
    }

    /// Stored name of the event type.
    pub fn to_string(&self) -> (r: String)
        ensures
            r@ == self.text(),
    {
        let s = match self {
            AuditEventType::RateLimitExceeded => "rate_limit_exceeded",
            AuditEventType::WhitelistDenied => "whitelist_denied",
            AuditEventType::AuthenticationFailed => "authentication_failed",
            AuditEventType::AuthorizationDenied => "authorization_denied",
            AuditEventType::InvalidRequest => "invalid_request",
            AuditEventType::BackendError => "backend_error",
            AuditEventType::ConfigurationChanged => "configuration_changed",
        };
        String::from_str(s)
    }
}

/// Area an event belongs to.
#[derive(Clone, Copy, Debug, PartialEq, Eq, Structural)]
pub enum AuditEventCategory {
    Authentication,
    RateLimit,
    Whitelist,
    Admin,
}

impl AuditEventCategory {
    /// Stored name of the category.
    pub open spec fn text(self) -> Seq<char> {
        match self {
            AuditEventCategory::Authentication => "authentication"@,
            AuditEventCategory::RateLimit => "rate_limit"@,
            AuditEventCategory::Whitelist => "whitelist"@,
            AuditEventCategory::Admin => "admin"@,
        }
    }

    /// Stored name of the category.
    pub fn to_string(&self) -> (r: String)
        ensures
            r@ == self.text(),
    {
        let s = match self {
            AuditEventCategory::Authentication => "authentication",
            AuditEventCategory::RateLimit => "rate_limit",
            AuditEventCategory::Whitelist => "whitelist",
            AuditEventCategory::Admin => "admin",
        };
        String::from_str(s)
    }
}

/// Severity of an event.
#[derive(Clone, Copy, Debug, PartialEq, Eq, Structural)]
pub enum AuditSeverity {
    Info,
    Warning,
    Critical,
}

impl AuditSeverity {
    /// Stored name of the severity.
    pub open spec fn text(self) -> Seq<char> {
        match self {
            AuditSeverity::Info => "info"@,
            AuditSeverity::Warning => "warning"@,
            AuditSeverity::Critical => "critical"@,
        }
    }

    /// Stored name of the severity.
    pub fn to_string(&self) -> (r: String)
        ensures
            r@ == self.text(),
    {
        let s = match self {
            AuditSeverity::Info => "info",
            AuditSeverity::Warning => "warning",
            AuditSeverity::Critical => "critical",
        };
        String::from_str(s)
    }
}

/// A value in an audit record's metadata.
#[derive(Debug)]
pub enum MetaValue {
    Text(String),
    Number(i64),
}

/// A persisted audit record.
#[derive(Debug)]
pub struct AuditLog {
    pub id: u128,
    pub event_type: String,
    pub event_category: String,
    pub severity: String,
    pub request_method: Option<String>,
    pub request_path: Option<String>,
    pub client_ip: Option<String>,
    pub user_agent: Option<String>,
    pub api_route_id: Option<u128>,
    pub backend_service_id: Option<u128>,
    pub message: String,
    /// Named values, in order; an empty object when there are none.
    pub metadata: Vec<(String, MetaValue)>,
    pub status_code: Option<i32>,
    pub created_at: i64,
}

/// Assembles an audit record field by field.
#[derive(Debug)]
pub struct AuditLogBuilder {
    pub event_type: String,
    pub event_category: String,
    pub severity: String,
    pub request_method: Option<String>,
    pub request_path: Option<String>,
    pub client_ip: Option<String>,
    pub user_agent: Option<String>,
    pub api_route_id: Option<u128>,
    pub backend_service_id: Option<u128>,
    pub message: String,
    pub metadata: Vec<(String, MetaValue)>,
    pub status_code: Option<i32>,
}

impl AuditLogBuilder {
    /// A record of the given kind and message, with nothing else set.
    pub fn new(event_type: AuditEventType, event_category: AuditEventCategory, severity: AuditSeverity, message: String) -> (r: AuditLogBuilder)
        ensures
            r.event_type@ == event_type.text(),
            r.event_category@ == event_category.text(),
            r.severity@ == severity.text(),
            r.message == message,
            r.request_method is None,
            r.request_path is None,
            r.client_ip is None,
            r.user_agent is None,
            r.api_route_id is None,
            r.backend_service_id is None,
            r.metadata@.len() == 0,
            r.status_code is None,
    {
        AuditLogBuilder {
            event_type: event_type.to_string(),
            event_category: event_category.to_string(),
            severity: severity.to_string(),
            request_method: None,
            request_path: None,
            client_ip: None,
            user_agent: None,
            api_route_id: None,
            backend_service_id: None,
            message,
            metadata: Vec::new(),
            status_code: None,
        }
    }

    /// Sets the request method.
    pub fn request_method(self, method: String) -> (r: AuditLogBuilder)
        ensures
            r == (AuditLogBuilder { request_method: Some(method), ..self }),
    {
        AuditLogBuilder { request_method: Some(method), ..self }
    }

    /// Sets the request path.
    pub fn request_path(self, path: String) -> (r: AuditLogBuilder)
        ensures
            r == (AuditLogBuilder { request_path: Some(path), ..self }),
    {
        AuditLogBuilder { request_path: Some(path), ..self }
    }

    /// Sets the client address.
    pub fn client_ip(self, ip: String) -> (r: AuditLogBuilder)
        ensures
            r == (AuditLogBuilder { client_ip: Some(ip), ..self }),
    {
        AuditLogBuilder { client_ip: Some(ip), ..self }
    }

    /// Sets the user agent.
    pub fn user_agent(self, ua: String) -> (r: AuditLogBuilder)
        ensures
            r == (AuditLogBuilder { user_agent: Some(ua), ..self }),
    {
        AuditLogBuilder { user_agent: Some(ua), ..self }
    }

    /// Sets the route.
    pub fn api_route_id(self, id: u128) -> (r: AuditLogBuilder)
        ensures
            r == (AuditLogBuilder { api_route_id: Some(id), ..self }),
    {
        AuditLogBuilder { api_route_id: Some(id), ..self }
    }

    /// Sets the backend service.
    pub fn backend_service_id(self, id: u128) -> (r: AuditLogBuilder)
        ensures
            r == (AuditLogBuilder { backend_service_id: Some(id), ..self }),
    {
        AuditLogBuilder { backend_service_id: Some(id), ..self }
    }

    /// Replaces the metadata.
    pub fn metadata(self, metadata: Vec<(String, MetaValue)>) -> (r: AuditLogBuilder)
        ensures
            r == (AuditLogBuilder { metadata: metadata, ..self }),
    {
        AuditLogBuilder { metadata, ..self }
    }

    /// Sets the HTTP status returned to the client.
    pub fn status_code(self, code: i32) -> (r: AuditLogBuilder)
        ensures
            r == (AuditLogBuilder { status_code: Some(code), ..self }),
    {
        AuditLogBuilder { status_code: Some(code), ..self }
    }

    /// The record, with a fresh identifier and the current time.
    pub fn build(self) -> (r: AuditLog)
        ensures
            r.event_type == self.event_type,
            r.event_category == self.event_category,
            r.severity == self.severity,
            r.request_method == self.request_method,
            r.request_path == self.request_path,
            r.client_ip == self.client_ip,
            r.user_agent == self.user_agent,
            r.api_route_id == self.api_route_id,
            r.backend_service_id == self.backend_service_id,
            r.message == self.message,
            r.metadata == self.metadata,
            r.status_code == self.status_code,
    {
        AuditLog {
            id: random_id(),
            event_type: self.event_type,
            event_category: self.event_category,
            severity: self.severity,
            request_method: self.request_method,
            request_path: self.request_path,
            client_ip: self.client_ip,
            user_agent: self.user_agent,
            api_route_id: self.api_route_id,
            backend_service_id: self.backend_service_id,
            message: self.message,
            metadata: self.metadata,
            status_code: self.status_code,
            created_at: now_millis(),
        }
    }
}

} // verus!
