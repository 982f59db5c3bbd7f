//! Response envelopes of the administration interface.
use vstd::prelude::*;

use crate::audit::now_millis;

verus! {

/// Pagination metadata.
#[derive(Clone, Copy, Debug, PartialEq, Eq, Structural)]
pub struct MetaResponse {
    pub page: Option<u32>,
    pub limit: Option<u32>,
    pub total_data: Option<u64>,
    pub total_pages: Option<u32>,
}

/// Number of pages of `limit` items that hold `total` items, at most
/// `u32::MAX`; zero when `limit` is zero.
pub open spec fn page_count(total: u64, limit: u32) -> u32 {
    if limit == 0 {
        0
    } else {
        let p = (total + limit - 1) / (limit as int);
        if p > u32::MAX {
            u32::MAX
        } else {
            p as u32
        }
    }
}

impl MetaResponse {
    /// Metadata of one page of a listing.
    pub fn new(page: u32, limit: u32, total_data: u64) -> (r: MetaResponse)
        ensures
            r == (MetaResponse {
                page: Some(page),
                limit: Some(limit),
                total_data: Some(total_data),
                total_pages: Some(page_count(total_data, limit)),
            }),
    {
        let total_pages: u32 = if limit > 0 {
            let p: u128 = (total_data as u128 + limit as u128 - 1) / limit as u128;
            if p > u32::MAX as u128 {
                u32::MAX
            } else {
                p as u32
            }
        } else {
            0
        };
        MetaResponse {
            page: Some(page),
            limit: Some(limit),
            total_data: Some(total_data),
            total_pages: Some(total_pages),
        }
    }

    /// Metadata of an empty listing.
    pub fn empty() -> (r: MetaResponse)
        ensures
            r == (MetaResponse { page: None, limit: None, total_data: Some(0), total_pages: None }),
    {
        MetaResponse { page: None, limit: None, total_data: Some(0), total_pages: None }
    }
}

/// Envelope of every administration response.
#[derive(Debug)]
pub struct JsonResponse<T> {
    pub data: Option<T>,
    pub message: Option<String>,
    pub success: bool,
    pub meta: Option<MetaResponse>,
    pub status_code: u16,
    /// Milliseconds since the Unix epoch.
    pub timestamp: i64,
    pub error_code: Option<String>,
}

impl<T> JsonResponse<T> {
    /// 200 with data.
    pub fn success(data: T) -> (r: JsonResponse<T>)
        ensures
            r.data == Some(data),
            r.message is None,
            r.success,
            r.meta is None,
            r.status_code == 200,
            r.error_code is None,
    {
        JsonResponse {
            data: Some(data),
            message: None,
            success: true,
            meta: None,
            status_code: 200,
            timestamp: now_millis(),
            error_code: None,
        }
    }

    /// 200 with data and a message.
    pub fn success_with_message(data: T, message: &str) -> (r: JsonResponse<T>)
        ensures
            r.data == Some(data),
            r.message matches Some(m) && m@ == message@,
            r.success,
            r.meta is None,
            r.status_code == 200,
            r.error_code is None,
    {
        JsonResponse {
            data: Some(data),
            message: Some(String::from_str(message)),
            success: true,
            meta: None,
            status_code: 200,
            timestamp: now_millis(),
            error_code: None,
        }
    }

    /// 200 with one page of data.
    pub fn success_paginated(data: T, meta: MetaResponse) -> (r: JsonResponse<T>)
        ensures
            r.data == Some(data),
            r.message is None,
            r.success,
            r.meta == Some(meta),
            r.status_code == 200,
            r.error_code is None,
    {
        JsonResponse {
            data: Some(data),
            message: None,
            success: true,
            meta: Some(meta),
            status_code: 200,
            timestamp: now_millis(),
            error_code: None,
        }
    }

    /// 201 with the created data.
    pub fn created(data: T, message: &str) -> (r: JsonResponse<T>)
        ensures
            r.data == Some(data),
            r.message matches Some(m) && m@ == message@,
            r.success,
            r.meta is None,
            r.status_code == 201,
            r.error_code is None,
    {
        JsonResponse {
            data: Some(data),
            message: Some(String::from_str(message)),
            success: true,
            meta: None,
            status_code: 201,
            timestamp: now_millis(),
            error_code: None,
        }
    }

    /// 202 with a message and no data.
    pub fn accepted(message: &str) -> (r: JsonResponse<T>)
        ensures
            r.data is None,
            r.message matches Some(m) && m@ == message@,
            r.success,
            r.meta is None,
            r.status_code == 202,
            r.error_code is None,
    {
        JsonResponse {
            data: None,
            message: Some(String::from_str(message)),
            success: true,
            meta: None,
            status_code: 202,
            timestamp: now_millis(),
            error_code: None,
        }
    }
}

impl JsonResponse<()> {
    /// 204.
    pub fn no_content() -> (r: JsonResponse<()>)
        ensures
            r.data is None,
            r.message matches Some(m) && m@ == "Operation completed successfully"@,
            r.success,
            r.meta is None,
            r.status_code == 204,
            r.error_code is None,
    {
        JsonResponse {
            data: None,
            message: Some(String::from_str("Operation completed successfully")),
            success: true,
            meta: None,
            status_code: 204,
            timestamp: now_millis(),
            error_code: None,
        }
    }

    /// A failure with a status, a message and an optional code.
    pub fn error(status_code: u16, message: &str, error_code: Option<String>) -> (r: JsonResponse<()>)
        ensures
            r.data is None,
            r.message matches Some(m) && m@ == message@,
            !r.success,
            r.meta is None,
            r.status_code == status_code,
            r.error_code == error_code,
    {
        JsonResponse {
            data: None,
            message: Some(String::from_str(message)),
            success: false,
            meta: None,
            status_code,
            timestamp: now_millis(),
            error_code,
        }
    }

    /// 400 `BAD_REQUEST`.
    pub fn bad_request(message: &str) -> (r: JsonResponse<()>)
        ensures
            r.message matches Some(m) && m@ == message@,
            !r.success,
            r.status_code == 400,
            r.error_code matches Some(c) && c@ == "BAD_REQUEST"@,
    {
        Self::error(400, message, Some(String::from_str("BAD_REQUEST")))
    }

    /// 401 `UNAUTHORIZED`.
    pub fn unauthorized(message: &str) -> (r: JsonResponse<()>)
        ensures
            r.message matches Some(m) && m@ == message@,
            !r.success,
            r.status_code == 401,
            r.error_code matches Some(c) && c@ == "UNAUTHORIZED"@,
    {
        Self::error(401, message, Some(String::from_str("UNAUTHORIZED")))
    }

    /// 403 `FORBIDDEN`.
    pub fn forbidden(message: &str) -> (r: JsonResponse<()>)
        ensures
            r.message matches Some(m) && m@ == message@,
            !r.success,
            r.status_code == 403,
            r.error_code matches Some(c) && c@ == "FORBIDDEN"@,
    {
        Self::error(403, message, Some(String::from_str("FORBIDDEN")))
    }

    /// 404 `NOT_FOUND`.
    pub fn not_found(message: &str) -> (r: JsonResponse<()>)
        ensures
            r.message matches Some(m) && m@ == message@,
            !r.success,
            r.status_code == 404,
            r.error_code matches Some(c) && c@ == "NOT_FOUND"@,
    {
        Self::error(404, message, Some(String::from_str("NOT_FOUND")))
    }

    /// 409 `CONFLICT`.
    pub fn conflict(message: &str) -> (r: JsonResponse<()>)
        ensures
            r.message matches Some(m) && m@ == message@,
            !r.success,
            r.status_code == 409,
            r.error_code matches Some(c) && c@ == "CONFLICT"@,
    {
        Self::error(409, message, Some(String::from_str("CONFLICT")))
    }

    /// 500 `INTERNAL_ERROR`.
    pub fn internal_error(message: &str) -> (r: JsonResponse<()>)
        ensures
            r.message matches Some(m) && m@ == message@,
            !r.success,
            r.status_code == 500,
            r.error_code matches Some(c) && c@ == "INTERNAL_ERROR"@,
    {
        Self::error(500, message, Some(String::from_str("INTERNAL_ERROR")))
    }
}

} // verus!
