use vstd::prelude::*;
use vstd::string::StringExecFns;

verus! {

/// The error taxonomy of the dispatcher.
///
/// `DuplicateKey` reports an id collision on create, `ValidationError` is
/// reserved, `ServiceError` covers bus publish and ack failures,
/// `RepositoryError` covers store failures including a conditional update
/// that matched no document, and `SerialError` covers document decode
/// failures.
#[derive(Debug)]
pub enum AppError {
    DuplicateKey,
    ValidationError(String),
    ServiceError(String),
    RepositoryError(String),
    SerialError(String),
}

/// Result type used throughout the dispatcher.
pub type AppResult<T> = Result<T, AppError>;

impl AppError {
    /// The HTTP status code a handler maps this error to.
    pub fn status_code(&self) -> (code: u16)
        ensures
            code == self.spec_status_code(),
    {
        match self {
            AppError::DuplicateKey => 409,
            AppError::ValidationError(_) => 400,
            AppError::ServiceError(_) => 500,
            AppError::RepositoryError(_) => 500,
            AppError::SerialError(_) => 500,
        }
    }

    /// The human-readable description of the error.
    pub open spec fn spec_message(&self) -> Seq<char> {
        match self {
            AppError::DuplicateKey => "Duplicate key"@,
            AppError::ValidationError(s) => "Validation error: "@ + s@,
            AppError::ServiceError(s) => "Service error: "@ + s@,
            AppError::RepositoryError(s) => "Data access error: "@ + s@,
            AppError::SerialError(s) => "Serialization error: "@ + s@,
        }
    }

    /// The human-readable description of the error.
    pub fn message(&self) -> (m: String)
        ensures
            m@ == self.spec_message(),
    {
        match self {
            AppError::DuplicateKey => String::from_str("Duplicate key"),
            AppError::ValidationError(s) => {
                let mut m = String::from_str("Validation error: ");
                m.append(s.as_str());
                m
            },
            AppError::ServiceError(s) => {
                let mut m = String::from_str("Service error: ");
                m.append(s.as_str());
                m
            },
            AppError::RepositoryError(s) => {
                let mut m = String::from_str("Data access error: ");
                m.append(s.as_str());
                m
            },
            AppError::SerialError(s) => {
                let mut m = String::from_str("Serialization error: ");
                m.append(s.as_str());
                m
            },
        }
    }

    /// The HTTP status code as a specification-level function.
    pub open spec fn spec_status_code(&self) -> u16 {
        match self {
            AppError::DuplicateKey => 409u16,
            AppError::ValidationError(_) => 400u16,
            AppError::ServiceError(_) => 500u16,
            AppError::RepositoryError(_) => 500u16,
            AppError::SerialError(_) => 500u16,
        }
    }
}

} // verus!
