//! The ways a request can fail.

use vstd::prelude::*;

verus! {

/// Why a request was turned down. Every failure ends the request it arose in.
#[derive(Clone, Copy, Debug, PartialEq, Eq, Structural)]
pub enum ApiError {
    /// The input has the wrong shape or length.
    ValidationFailed,
    /// The credential is missing or matches no user.
    Unauthorized,
    /// The credential is valid but its user may not write.
    Forbidden,
    /// The entity is absent, or belongs to someone else.
    NotFound,
    /// The username is already taken.
    Conflict,
    /// Hashing or the store itself failed.
    StorageFailure,
}

impl ApiError {
    /// The HTTP status that reports this failure.
    pub open spec fn status(self) -> int {
        match self {
            ApiError::ValidationFailed => 400,
            ApiError::Unauthorized => 401,
            ApiError::Forbidden => 403,
            ApiError::NotFound => 404,
            ApiError::Conflict => 409,
            ApiError::StorageFailure => 500,
        }
    }

    /// The HTTP status that reports this failure.
    pub fn status_code(&self) -> (code: u16)
        ensures
            code == self.status(),
    {
        match self {
            ApiError::ValidationFailed => 400,
            ApiError::Unauthorized => 401,
            ApiError::Forbidden => 403,
            ApiError::NotFound => 404,
            ApiError::Conflict => 409,
            ApiError::StorageFailure => 500,
        }
    }

    /// A short message for the caller, free of internal detail.
    pub fn message(&self) -> (text: String)
        ensures
            text@ == self.message_text(),
    {
        match self {
            ApiError::ValidationFailed => "validation failed".to_string(),
            ApiError::Unauthorized => "unauthorized".to_string(),
            ApiError::Forbidden => "forbidden".to_string(),
            ApiError::NotFound => "not found".to_string(),
            ApiError::Conflict => "username already exists".to_string(),
            ApiError::StorageFailure => "internal error".to_string(),
        }
    }

    /// The text of [`ApiError::message`].
    pub open spec fn message_text(self) -> Seq<char> {
        match self {
            ApiError::ValidationFailed => "validation failed"@,
            ApiError::Unauthorized => "unauthorized"@,
            ApiError::Forbidden => "forbidden"@,
            ApiError::NotFound => "not found"@,
            ApiError::Conflict => "username already exists"@,
            ApiError::StorageFailure => "internal error"@,
        }
    }
}

} // verus!
