//! The error taxonomy that access decisions report to the endpoint layer.
use vstd::prelude::*;

verus! {

/// Why a request was refused; each variant carries a human-readable message.
#[derive(Debug)]
pub enum AppError {
    /// Missing, invalid or expired credentials.
    Unauthorized(String),
    /// Authenticated, but not entitled to the resource.
    Forbidden(String),
    /// Malformed or conflicting input.
    BadRequest(String),
    /// Misconfiguration or an unreachable store.
    InternalServerError(String),
    /// The identity or record does not exist.
    NotFound(String),
}

impl AppError {
    /// The HTTP status code that the endpoint layer answers with.
    pub open spec fn spec_status(&self) -> u16 {
        match self {
            AppError::Unauthorized(_) => 401,
            AppError::Forbidden(_) => 403,
            AppError::BadRequest(_) => 400,
            AppError::NotFound(_) => 404,
            AppError::InternalServerError(_) => 500,
        }
    }

    pub open spec fn spec_message(&self) -> Seq<char> {
        match self {
            AppError::Unauthorized(m) => m@,
            AppError::Forbidden(m) => m@,
            AppError::BadRequest(m) => m@,
            AppError::NotFound(m) => m@,
            AppError::InternalServerError(m) => m@,
        }
    }

    pub fn status_code(&self) -> (r: u16)
        ensures
            r == self.spec_status(),
    {
        match self {
            AppError::Unauthorized(_) => 401,
            AppError::Forbidden(_) => 403,
            AppError::BadRequest(_) => 400,
            AppError::NotFound(_) => 404,
            AppError::InternalServerError(_) => 500,
        }
    }

    pub fn message(&self) -> (r: String)
        ensures
            r@ == self.spec_message(),
    {
        match self {
            AppError::Unauthorized(m) => m.clone(),
            AppError::Forbidden(m) => m.clone(),
            AppError::BadRequest(m) => m.clone(),
            AppError::NotFound(m) => m.clone(),
            AppError::InternalServerError(m) => m.clone(),
        }
    }
}

} // verus!
