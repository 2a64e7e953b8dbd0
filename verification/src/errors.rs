//! Failure taxonomy of the credential lifecycle core, and its mapping
//! to transport-level status codes.

use vstd::prelude::*;

verus! {

/// Everything a use case can fail with.
///
/// - `NotFoundError`: a referenced entity is absent.
/// - `UnauthorizedError`: authentication or authorization failed
///   (bad credentials, invalid, expired or reused token).
/// - `UnexpectedError`: an internal fault (hashing or signing failure).
/// - `ValidationError`: malformed input.
/// - `DbError`: a storage fault (constraint violation).
#[derive(Debug)]
pub enum AppError {
    NotFoundError(String),
    UnauthorizedError(String),
    UnexpectedError(String),
    ValidationError(String),
    DbError(String),
}

/// Body of an error response, for the variants that carry detail.
pub struct AppErrorDetails {
    pub error_code: u16,
    pub error_type: String,
    pub title: String,
    pub details: String,
}

impl AppError {
    /// The status code each failure is surfaced as.
    pub open spec fn spec_status_code(self) -> u16 {
        match self {
            AppError::NotFoundError(_) => 404,
            AppError::UnauthorizedError(_) => 401,
            AppError::UnexpectedError(_) => 400,
            AppError::ValidationError(_) => 400,
            AppError::DbError(_) => 500,
        }
    }

    pub fn status_code(&self) -> (code: u16)
        ensures
            code == self.spec_status_code(),
    {
        match self {
            AppError::NotFoundError(_) => 404,
            AppError::UnauthorizedError(_) => 401,
            AppError::UnexpectedError(_) => 400,
            AppError::ValidationError(_) => 400,
            AppError::DbError(_) => 500,
        }
    }

    /// The response body that goes with this failure: unauthorized and
    /// unexpected failures carry their detail; the rest deliberately
    /// expose nothing.
    pub fn details(&self) -> (r: Option<AppErrorDetails>)
        ensures
            match *self {
                AppError::UnauthorizedError(ref m) => {
                    &&& r is Some
                    &&& r.unwrap().error_code == 401
                    &&& r.unwrap().error_type@ == "UnauthorizedError"@
                    &&& r.unwrap().title@ == "Unauthorized"@
                    &&& r.unwrap().details@ == m@
                },
                AppError::UnexpectedError(ref m) => {
                    &&& r is Some
                    &&& r.unwrap().error_code == 400
                    &&& r.unwrap().error_type@ == "UnexpectedError"@
                    &&& r.unwrap().title@ == "Unexpected Error"@
                    &&& r.unwrap().details@ == m@
                },
                _ => r is None,
            },
    {
        match self {
            AppError::UnauthorizedError(m) => Some(AppErrorDetails {
                error_code: 401,
                error_type: "UnauthorizedError".to_owned(),
                title: "Unauthorized".to_owned(),
                details: m.clone(),
            }),
            AppError::UnexpectedError(m) => Some(AppErrorDetails {
                error_code: 400,
                error_type: "UnexpectedError".to_owned(),
                title: "Unexpected Error".to_owned(),
                details: m.clone(),
            }),
            _ => None,
        }
    }

    /// The safe, human-readable message of the failure.
    pub fn message(&self) -> (r: String)
        ensures
            match *self {
                AppError::NotFoundError(ref m) => r@ == m@,
                AppError::UnauthorizedError(ref m) => r@ == m@,
                AppError::UnexpectedError(ref m) => r@ == m@,
                AppError::ValidationError(ref m) => r@ == m@,
                AppError::DbError(ref m) => r@ == m@,
            },
    {
        match self {
            AppError::NotFoundError(m) => m.clone(),
            AppError::UnauthorizedError(m) => m.clone(),
            AppError::UnexpectedError(m) => m.clone(),
            AppError::ValidationError(m) => m.clone(),
            AppError::DbError(m) => m.clone(),
        }
    }
}

} // verus!
