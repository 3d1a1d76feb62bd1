//! Errors surfaced to HTTP clients, by kind.
use vstd::prelude::*;

verus! {

/// The kinds of failure a request can end in.
#[derive(Debug, Clone, PartialEq, Eq)]
pub enum AppError {
    MissingFields(String),
    BadRequest(String),
    AccessDenied,
    NotFound(String),
    BadGateway(String),
    Internal(String),
}

/// The HTTP status each kind of error maps to.
pub open spec fn status_of(e: AppError) -> u16 {
    match e {
        AppError::MissingFields(_) | AppError::BadRequest(_) => 400,
        AppError::AccessDenied => 403,
        AppError::NotFound(_) => 404,
        AppError::BadGateway(_) => 502,
        AppError::Internal(_) => 500,
    }
}

/// The client-facing message of each kind of error.
pub open spec fn message_of(e: AppError) -> Seq<char> {
    match e {
        AppError::MissingFields(s) => "Missing required fields: "@ + s@,
        AppError::BadRequest(s) => s@,
        AppError::AccessDenied => "Access denied"@,
        AppError::NotFound(s) => "Not found: "@ + s@,
        AppError::BadGateway(s) => "Bad gateway: "@ + s@,
        AppError::Internal(_) => "Internal server error"@,
    }
}

impl AppError {
    pub fn status_code(&self) -> (r: u16)
        ensures
            r == status_of(*self),
    {
        match self {
            AppError::MissingFields(_) | AppError::BadRequest(_) => 400,
            AppError::AccessDenied => 403,
            AppError::NotFound(_) => 404,
            AppError::BadGateway(_) => 502,
            AppError::Internal(_) => 500,
        }
    }

    /// The message shown to the client; internal causes are not disclosed.
    pub fn message(&self) -> (r: String)
        ensures
            r@ == message_of(*self),
    {
        match self {
            AppError::MissingFields(s) => String::from_str("Missing required fields: ").concat(s.as_str()),
            AppError::BadRequest(s) => s.clone(),
            AppError::AccessDenied => String::from_str("Access denied"),
            AppError::NotFound(s) => String::from_str("Not found: ").concat(s.as_str()),
            AppError::BadGateway(s) => String::from_str("Bad gateway: ").concat(s.as_str()),
            AppError::Internal(_) => String::from_str("Internal server error"),
        }
    }
}

} // verus!
