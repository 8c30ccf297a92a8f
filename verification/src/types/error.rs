//! Errors as the session service reports them.

use vstd::prelude::*;

verus! {

/// An error response of the service.
#[derive(Debug, Clone)]
pub struct ApiError {
    pub error: ErrorDetail,
}

/// What went wrong, as the service words it.
#[derive(Debug, Clone)]
pub struct ErrorDetail {
    pub code: u16,
    pub message: String,
    pub status: String,
}

} // verus!
