//! The error taxonomy of the service core, and its mapping to HTTP
//! status codes.

use vstd::prelude::*;

verus! {

/// Every failure a core operation can report.
///
/// `Unauthorized` means the caller presented no valid credential where one
/// was required (missing, unknown or expired token); `Forbidden` means the
/// credential was valid but lacks privilege, or the caller's origin is over
/// the strike threshold; `BadRequest` a malformed target URL; `NotFound` an
/// unknown link id; `InternalError` a storage or encoding failure.
#[derive(Debug, Clone, Copy, PartialEq, Eq, Structural)]
pub enum ApiError {
    BadRequest,
    Unauthorized,
    Forbidden,
    NotFound,
    InternalError,
}

/// The HTTP status code each error maps to at the service boundary.
pub open spec fn spec_status_code(e: ApiError) -> int {
    match e {
        ApiError::BadRequest => 400,
        ApiError::Unauthorized => 401,
        ApiError::Forbidden => 403,
        ApiError::NotFound => 404,
        ApiError::InternalError => 500,
    }
}

impl ApiError {
    pub fn status_code(&self) -> (c: u16)
        ensures
            c as int == spec_status_code(*self),
    {
        match self {
            ApiError::BadRequest => 400,
            ApiError::Unauthorized => 401,
            ApiError::Forbidden => 403,
            ApiError::NotFound => 404,
            ApiError::InternalError => 500,
        }
    }
}

} // verus!
