//! Application error: HTTP status, stable numeric code, message and an optional
//! retry delay (sent as `Retry-After` on 429 answers).

use vstd::prelude::*;

verus! {

pub const STATUS_BAD_REQUEST: u16 = 400;
pub const STATUS_UNAUTHORIZED: u16 = 401;
pub const STATUS_FORBIDDEN: u16 = 403;
pub const STATUS_NOT_FOUND: u16 = 404;
pub const STATUS_CONFLICT: u16 = 409;
pub const STATUS_TOO_MANY_REQUESTS: u16 = 429;
pub const STATUS_INTERNAL: u16 = 500;

pub const CODE_BAD_REQUEST: u32 = 40000;
pub const CODE_UNAUTHORIZED: u32 = 40001;
pub const CODE_CONFLICT: u32 = 40002;
pub const CODE_FORBIDDEN: u32 = 50013;
pub const CODE_NOT_FOUND: u32 = 10004;
pub const CODE_INTERNAL: u32 = 50000;
pub const CODE_TOO_MANY: u32 = 20016;

/// An error answer of the API.
#[derive(Debug)]
pub struct AppError {
    /// HTTP status code.
    pub status: u16,
    /// Stable application error code.
    pub code: u32,
    pub message: String,
    /// Advised delay in seconds before retrying (429 answers only).
    pub retry_after: Option<u64>,
}

/// `e` is the error of the given status, code and message, without retry delay.
pub open spec fn is_error(e: AppError, status: u16, code: u32, message: Seq<char>) -> bool {
    &&& e.status == status
    &&& e.code == code
    &&& e.message@ == message
    &&& e.retry_after is None
}

/// Kinds of error answers; each has its status and code.
pub open spec fn is_bad_request(e: AppError, message: Seq<char>) -> bool {
    is_error(e, STATUS_BAD_REQUEST, CODE_BAD_REQUEST, message)
}

pub open spec fn is_unauthorized(e: AppError, message: Seq<char>) -> bool {
    is_error(e, STATUS_UNAUTHORIZED, CODE_UNAUTHORIZED, message)
}

pub open spec fn is_forbidden(e: AppError, message: Seq<char>) -> bool {
    is_error(e, STATUS_FORBIDDEN, CODE_FORBIDDEN, message)
}

pub open spec fn is_not_found(e: AppError, message: Seq<char>) -> bool {
    is_error(e, STATUS_NOT_FOUND, CODE_NOT_FOUND, message)
}

pub open spec fn is_conflict(e: AppError, message: Seq<char>) -> bool {
    is_error(e, STATUS_CONFLICT, CODE_CONFLICT, message)
}

pub open spec fn is_too_many(e: AppError, message: Seq<char>) -> bool {
    is_error(e, STATUS_TOO_MANY_REQUESTS, CODE_TOO_MANY, message)
}

impl AppError {
    pub fn new(status: u16, code: u32, message: &str) -> (e: AppError)
        ensures
            is_error(e, status, code, message@),
    {
        AppError { status, code, message: message.to_owned(), retry_after: None }
    }

    pub fn bad_request(message: &str) -> (e: AppError)
        ensures
            is_bad_request(e, message@),
    {
        Self::new(STATUS_BAD_REQUEST, CODE_BAD_REQUEST, message)
    }

    pub fn unauthorized(message: &str) -> (e: AppError)
        ensures
            is_unauthorized(e, message@),
    {
        Self::new(STATUS_UNAUTHORIZED, CODE_UNAUTHORIZED, message)
    }

    pub fn forbidden(message: &str) -> (e: AppError)
        ensures
            is_forbidden(e, message@),
    {
        Self::new(STATUS_FORBIDDEN, CODE_FORBIDDEN, message)
    }

    pub fn not_found(message: &str) -> (e: AppError)
        ensures
            is_not_found(e, message@),
    {
        Self::new(STATUS_NOT_FOUND, CODE_NOT_FOUND, message)
    }

    pub fn conflict(message: &str) -> (e: AppError)
        ensures
            is_conflict(e, message@),
    {
        Self::new(STATUS_CONFLICT, CODE_CONFLICT, message)
    }

    pub fn internal(message: &str) -> (e: AppError)
        ensures
            is_error(e, STATUS_INTERNAL, CODE_INTERNAL, message@),
    {
        Self::new(STATUS_INTERNAL, CODE_INTERNAL, message)
    }

    pub fn too_many(message: &str) -> (e: AppError)
        ensures
            is_too_many(e, message@),
    {
        Self::new(STATUS_TOO_MANY_REQUESTS, CODE_TOO_MANY, message)
    }

    /// 429 with an advised delay of `secs` seconds.
    pub fn rate_limited(secs: u64) -> (e: AppError)
        ensures
            e.status == STATUS_TOO_MANY_REQUESTS,
            e.code == CODE_TOO_MANY,
            e.message@ == "trop de requêtes — réessaie dans un instant"@,
            e.retry_after == Some(secs),
    {
        let mut e = Self::new(
            STATUS_TOO_MANY_REQUESTS,
            CODE_TOO_MANY,
            "trop de requêtes — réessaie dans un instant",
        );
        e.retry_after = Some(secs);
        e
    }
}

} // verus!
