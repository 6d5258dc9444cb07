//! Error taxonomy shared by the services: validation, authentication,
//! database and unexpected failures, each mapped to an HTTP status code and
//! a response message for the edge layer.
use vstd::prelude::*;

verus! {

/// Authentication failures, kept as plain messages.
#[derive(Debug, PartialEq)]
pub enum AuthError {
    InvalidCredentials(String),
    InvalidSession(String),
}

/// The service-wide error type. `DatabaseError` carries both an internal
/// message and the response text plus status code chosen by the store layer.
#[derive(Debug, PartialEq)]
pub enum CustomError {
    DatabaseError { msg: String, resp: String, status_code: u16 },
    ValidationError(String),
    AuthenticationError(AuthError),
    UnexpectedError(String),
}

pub open spec fn validation_prefix() -> Seq<char> {
    "Validation Error: "@
}

pub open spec fn authentication_message() -> Seq<char> {
    "Authentication Error"@
}

pub open spec fn unexpected_message() -> Seq<char> {
    "Unexpected Error Occured"@
}

/// The response body text a given error surfaces to a client.
pub open spec fn response_message(e: CustomError) -> Seq<char> {
    match e {
        CustomError::ValidationError(m) => validation_prefix() + m@,
        CustomError::DatabaseError { resp, .. } => resp@,
        CustomError::AuthenticationError(_) => authentication_message(),
        CustomError::UnexpectedError(_) => unexpected_message(),
    }
}

/// The HTTP status code a given error surfaces to a client.
pub open spec fn response_status(e: CustomError) -> u16 {
    match e {
        CustomError::ValidationError(_) => 400,
        CustomError::DatabaseError { status_code, .. } => status_code,
        CustomError::AuthenticationError(_) => 401,
        CustomError::UnexpectedError(_) => 500,
    }
}

/// The shape of a relational-store failure, as the edge layer reads it off
/// the database driver: the violated constraint's kind and name, a missing
/// row, or anything else.
pub enum DbErrorKind {
    UniqueViolation { constraint: Option<String> },
    ForeignKeyViolation { constraint: Option<String> },
    CheckViolation { constraint: Option<String> },
    NotFound,
    Other,
}

impl CustomError {
    /// Status code and body text of the HTTP response for this error.
    pub fn error_response(&self) -> (r: (u16, String))
        ensures
            r.0 == response_status(*self),
            r.1@ == response_message(*self),
    {
        match self {
            CustomError::ValidationError(m) => {
                (400, String::from_str("Validation Error: ").concat(m.as_str()))
            },
            CustomError::DatabaseError { resp, status_code, .. } => {
                (*status_code, String::from_str(resp.as_str()))
            },
            CustomError::AuthenticationError(_) => {
                (401, String::from_str("Authentication Error"))
            },
            CustomError::UnexpectedError(_) => {
                (500, String::from_str("Unexpected Error Occured"))
            },
        }
    }
}

} // verus!
