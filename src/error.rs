//! Errors of the configuration and administration side, with their HTTP status.
use vstd::prelude::*;

verus! {

/// An error with the message that explains it.
#[derive(Debug)]
pub enum KaratewayError {
    Database(String),
    Redis(String),
    Validation(String),
    NotFound(String),
    Conflict(String),
    Internal(String),
    Configuration(String),
    Unauthorized(String),
    Forbidden(String),
}

impl KaratewayError {
    /// HTTP status of the error.
    pub open spec fn status(&self) -> u16 {
        match self {
            KaratewayError::Database(_) => 500,
            KaratewayError::Redis(_) => 500,
            KaratewayError::Validation(_) => 400,
            KaratewayError::NotFound(_) => 404,
            KaratewayError::Conflict(_) => 409,
            KaratewayError::Internal(_) => 500,
            KaratewayError::Configuration(_) => 500,
            KaratewayError::Unauthorized(_) => 401,
            KaratewayError::Forbidden(_) => 403,
        }
    }

    /// Machine-readable code of the error.
    pub open spec fn code(&self) -> Seq<char> {
        match self {
            KaratewayError::Database(_) => "DATABASE_ERROR"@,
            KaratewayError::Redis(_) => "REDIS_ERROR"@,
            KaratewayError::Validation(_) => "VALIDATION_ERROR"@,
            KaratewayError::NotFound(_) => "NOT_FOUND"@,
            KaratewayError::Conflict(_) => "CONFLICT"@,
            KaratewayError::Internal(_) => "INTERNAL_ERROR"@,
            KaratewayError::Configuration(_) => "CONFIGURATION_ERROR"@,
            KaratewayError::Unauthorized(_) => "UNAUTHORIZED"@,
            KaratewayError::Forbidden(_) => "FORBIDDEN"@,
        }
    }

    /// Human-readable text of the error.
    pub open spec fn text(&self) -> Seq<char> {
        match self {
            KaratewayError::Database(m) => "Database error: "@ + m@,
            KaratewayError::Redis(m) => "Redis error: "@ + m@,
            KaratewayError::Validation(m) => "Validation error: "@ + m@,
            KaratewayError::NotFound(m) => "Not found: "@ + m@,
            KaratewayError::Conflict(m) => "Conflict: "@ + m@,
            KaratewayError::Internal(m) => "Internal error: "@ + m@,
            KaratewayError::Configuration(m) => "Configuration error: "@ + m@,
            KaratewayError::Unauthorized(m) => "Unauthorized: "@ + m@,
            KaratewayError::Forbidden(m) => "Forbidden: "@ + m@,
        }
    }

    /// HTTP status of the error.
    pub fn status_code(&self) -> (r: u16)
        ensures
            r == self.status(),
    {
        match self {
            KaratewayError::Database(_) => 500,
            KaratewayError::Redis(_) => 500,
            KaratewayError::Validation(_) => 400,
            KaratewayError::NotFound(_) => 404,
            KaratewayError::Conflict(_) => 409,
            KaratewayError::Internal(_) => 500,
            KaratewayError::Configuration(_) => 500,
            KaratewayError::Unauthorized(_) => 401,
            KaratewayError::Forbidden(_) => 403,
        }
    }

    /// Machine-readable code of the error.
    pub fn error_code(&self) -> (r: String)
        ensures
            r@ == self.code(),
    {
        let s = match self {
            KaratewayError::Database(_) => "DATABASE_ERROR",
            KaratewayError::Redis(_) => "REDIS_ERROR",
            KaratewayError::Validation(_) => "VALIDATION_ERROR",
            KaratewayError::NotFound(_) => "NOT_FOUND",
            KaratewayError::Conflict(_) => "CONFLICT",
            KaratewayError::Internal(_) => "INTERNAL_ERROR",
            KaratewayError::Configuration(_) => "CONFIGURATION_ERROR",
            KaratewayError::Unauthorized(_) => "UNAUTHORIZED",
            KaratewayError::Forbidden(_) => "FORBIDDEN",
        };
        String::from_str(s)
    }

    /// Human-readable text of the error.
    pub fn message(&self) -> (r: String)
        ensures
            r@ == self.text(),
    {
        let (prefix, m) = match self {
            KaratewayError::Database(m) => ("Database error: ", m),
            KaratewayError::Redis(m) => ("Redis error: ", m),
            KaratewayError::Validation(m) => ("Validation error: ", m),
            KaratewayError::NotFound(m) => ("Not found: ", m),
            KaratewayError::Conflict(m) => ("Conflict: ", m),
            KaratewayError::Internal(m) => ("Internal error: ", m),
            KaratewayError::Configuration(m) => ("Configuration error: ", m),
            KaratewayError::Unauthorized(m) => ("Unauthorized: ", m),
            KaratewayError::Forbidden(m) => ("Forbidden: ", m),
        };
        let mut s = String::from_str(prefix);
        s.append(m.as_str());
        s
    }
}

} // verus!
