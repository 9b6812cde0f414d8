//! Errors that end a request, each with its HTTP status.
use vstd::prelude::*;

verus! {

/// Why a request failed.
#[derive(Debug, Clone, PartialEq, Eq)]
pub enum AppError {
    BadRequest(String),
    Unauthorized,
    Forbidden,
    NotFound,
    Conflict(String),
    TooManyRequests(String),
    Internal(String),
}

/// `e` is a bad request carrying the message `msg`.
pub open spec fn is_bad_request(e: AppError, msg: Seq<char>) -> bool {
    e matches AppError::BadRequest(m) && m@ == msg
}

/// `e` is a conflict carrying the message `msg`.
pub open spec fn is_conflict(e: AppError, msg: Seq<char>) -> bool {
    e matches AppError::Conflict(m) && m@ == msg
}

/// `e` is a rate-limit refusal carrying the message `msg`.
pub open spec fn is_too_many(e: AppError, msg: Seq<char>) -> bool {
    e matches AppError::TooManyRequests(m) && m@ == msg
}

/// A bad request with the given message.
pub fn bad_request(msg: &str) -> (e: AppError)
    ensures
        is_bad_request(e, msg@),
{
    AppError::BadRequest(msg.to_owned())
}

impl AppError {
    pub open spec fn spec_status_code(&self) -> u16 {
        match self {
            AppError::BadRequest(_) => 400,
            AppError::Unauthorized => 401,
            AppError::Forbidden => 403,
            AppError::NotFound => 404,
            AppError::Conflict(_) => 409,
            AppError::TooManyRequests(_) => 429,
            AppError::Internal(_) => 500,
        }
    }

    pub open spec fn spec_message(&self) -> Seq<char> {
        match self {
            AppError::BadRequest(m) => m@,
            AppError::Conflict(m) => m@,
            AppError::TooManyRequests(m) => m@,
            AppError::Internal(m) => m@,
            AppError::Unauthorized => "Unauthorized"@,
            AppError::Forbidden => "Forbidden"@,
            AppError::NotFound => "Not found"@,
        }
    }

    /// The text the error is answered with: its message, or the name of
    /// its status.
    pub fn message(&self) -> (r: String)
        ensures
            r@ == self.spec_message(),
    {
        match self {
            AppError::BadRequest(m) => m.clone(),
            AppError::Conflict(m) => m.clone(),
            AppError::TooManyRequests(m) => m.clone(),
            AppError::Internal(m) => m.clone(),
            AppError::Unauthorized => "Unauthorized".to_owned(),
            AppError::Forbidden => "Forbidden".to_owned(),
            AppError::NotFound => "Not found".to_owned(),
        }
    }

    /// The HTTP status the error is answered with.
    pub fn status_code(&self) -> (r: u16)
        ensures
            r == self.spec_status_code(),
    {
        match self {
            AppError::BadRequest(_) => 400,
            AppError::Unauthorized => 401,
            AppError::Forbidden => 403,
            AppError::NotFound => 404,
            AppError::Conflict(_) => 409,
            AppError::TooManyRequests(_) => 429,
            AppError::Internal(_) => 500,
        }
    }
}

} // verus!

verus! {

/// `r` failed as a bad request with the message `msg`.
pub open spec fn fails_bad<T>(r: Result<T, AppError>, msg: Seq<char>) -> bool {
    match r {
        Err(e) => is_bad_request(e, msg),
        Ok(_) => false,
    }
}

/// `r` failed as a conflict with the message `msg`.
pub open spec fn fails_conflict<T>(r: Result<T, AppError>, msg: Seq<char>) -> bool {
    match r {
        Err(e) => is_conflict(e, msg),
        Ok(_) => false,
    }
}

/// `r` failed as a rate-limit refusal with the message `msg`.
pub open spec fn fails_too_many<T>(r: Result<T, AppError>, msg: Seq<char>) -> bool {
    match r {
        Err(e) => is_too_many(e, msg),
        Ok(_) => false,
    }
}

} // verus!
