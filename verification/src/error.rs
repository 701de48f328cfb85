//! Failures the backend reports, and how each one is answered.

use vstd::prelude::*;
use vstd::string::*;

verus! {

/// Everything a request can fail with.
#[derive(Debug, PartialEq, Eq)]
pub enum AppError {
    /// A storage fault; the text is its detail, kept for the server log.
    DatabaseError(String),
    /// An unknown or inactive product, or an unknown order.
    NotFound(String),
    /// A missing, malformed, invalid or expired credential.
    Unauthorized(String),
    /// Malformed, empty or non-positive input, or insufficient stock.
    BadRequest(String),
    /// Any other fault on the server's side.
    InternalServerError(String),
}

/// Mathematical content of an [`AppError`]: the variant and its text.
pub enum Failure {
    DatabaseError(Seq<char>),
    NotFound(Seq<char>),
    Unauthorized(Seq<char>),
    BadRequest(Seq<char>),
    InternalServerError(Seq<char>),
}

impl View for AppError {
    type V = Failure;

    open spec fn view(&self) -> Failure {
        match self {
            AppError::DatabaseError(detail) => Failure::DatabaseError(detail@),
            AppError::NotFound(message) => Failure::NotFound(message@),
            AppError::Unauthorized(message) => Failure::Unauthorized(message@),
            AppError::BadRequest(message) => Failure::BadRequest(message@),
            AppError::InternalServerError(message) => Failure::InternalServerError(message@),
        }
    }
}

/// The answer sent for a failed request: an HTTP status and one message.
#[derive(Debug, PartialEq, Eq)]
pub struct ErrorResponse {
    pub status: u16,
    pub error: String,
}

impl Failure {
    /// The HTTP status the failure is answered with.
    pub open spec fn status(self) -> int {
        match self {
            Failure::DatabaseError(_) => 500,
            Failure::NotFound(_) => 404,
            Failure::Unauthorized(_) => 401,
            Failure::BadRequest(_) => 400,
            Failure::InternalServerError(_) => 500,
        }
    }

    /// The message shown to the client. The detail of a storage fault is
    /// replaced by a fixed sentence.
    pub open spec fn public_message(self) -> Seq<char> {
        match self {
            Failure::DatabaseError(_) => "Database error occurred"@,
            Failure::NotFound(message) => message,
            Failure::Unauthorized(message) => message,
            Failure::BadRequest(message) => message,
            Failure::InternalServerError(message) => message,
        }
    }

    /// The text written to the server log, for the failures that are logged.
    pub open spec fn log_entry(self) -> Option<Seq<char>> {
        match self {
            Failure::DatabaseError(detail) => Some(detail),
            Failure::InternalServerError(message) => Some(message),
            _ => None,
        }
    }
}

impl AppError {
    /// The HTTP status this failure is answered with.
    pub fn status_code(&self) -> (code: u16)
        ensures
            code == self@.status(),
    {
        match self {
            AppError::DatabaseError(_) => 500,
            AppError::NotFound(_) => 404,
            AppError::Unauthorized(_) => 401,
            AppError::BadRequest(_) => 400,
            AppError::InternalServerError(_) => 500,
        }
    }

    /// The text to write to the server log, if this failure is one that is
    /// logged: the detail of a storage fault, or the message of an internal
    /// error.
    pub fn log_entry(&self) -> (entry: Option<String>)
        ensures
            entry is Some <==> self@.log_entry() is Some,
            entry is Some ==> entry->0@ == self@.log_entry()->0,
    {
        match self {
            AppError::DatabaseError(detail) => Some(detail.clone()),
            AppError::InternalServerError(message) => Some(message.clone()),
            _ => None,
        }
    }

    /// The status and message sent to the client.
    pub fn into_response(self) -> (response: ErrorResponse)
        ensures
            response.status == self@.status(),
            response.error@ == self@.public_message(),
    {
        let status = self.status_code();
        let error = match self {
            AppError::DatabaseError(_) => "Database error occurred".to_owned(),
            AppError::NotFound(message) => message,
            AppError::Unauthorized(message) => message,
            AppError::BadRequest(message) => message,
            AppError::InternalServerError(message) => message,
        };
        ErrorResponse { status, error }
    }
}

} // verus!
