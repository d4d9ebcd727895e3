//! The errors that requests end in, and the HTTP answer each one gets.

use vstd::prelude::*;
use vstd::string::StringExecFns;

verus! {

/// Why a request failed. Each variant carries the text that explains it;
/// `Database` carries the database's own description of what went wrong,
/// which is logged but never shown to the client.
#[derive(Debug, Clone)]
pub enum AppError {
    NotFound(String),
    BadRequest(String),
    Unauthorized(String),
    Conflict(String),
    Internal(String),
    Database(String),
}

/// The result of a request handler.
pub type AppResult<T> = Result<T, AppError>;

/// The HTTP status code of each kind of error.
pub open spec fn status_of(e: AppError) -> u16 {
    match e {
        AppError::NotFound(_) => 404,
        AppError::BadRequest(_) => 400,
        AppError::Unauthorized(_) => 401,
        AppError::Conflict(_) => 409,
        AppError::Internal(_) => 500,
        AppError::Database(_) => 500,
    }
}

/// The text the client is shown: the error's own text, except for database
/// errors, whose details stay on the server.
pub open spec fn client_text(e: AppError) -> Seq<char> {
    match e {
        AppError::NotFound(m) => m@,
        AppError::BadRequest(m) => m@,
        AppError::Unauthorized(m) => m@,
        AppError::Conflict(m) => m@,
        AppError::Internal(m) => m@,
        AppError::Database(_) => "Internal server error"@,
    }
}

impl AppError {
    /// The HTTP status code this error is answered with.
    pub fn status_code(&self) -> (code: u16)
        ensures
            code == status_of(*self),
    {
        match self {
            AppError::NotFound(_) => 404,
            AppError::BadRequest(_) => 400,
            AppError::Unauthorized(_) => 401,
            AppError::Conflict(_) => 409,
            AppError::Internal(_) => 500,
            AppError::Database(_) => 500,
        }
    }

    /// The message put in the `error` field of the JSON answer.
    pub fn client_message(&self) -> (m: String)
        ensures
            m@ == client_text(*self),
    {
        match self {
            AppError::NotFound(m) => m.clone(),
            AppError::BadRequest(m) => m.clone(),
            AppError::Unauthorized(m) => m.clone(),
            AppError::Conflict(m) => m.clone(),
            AppError::Internal(m) => m.clone(),
            AppError::Database(_) => String::from_str("Internal server error"),
        }
    }

    /// Whether the error is the server's fault (logged as an error rather
    /// than a warning).
    pub fn is_server_error(&self) -> (b: bool)
        ensures
            b == (status_of(*self) == 500),
    {
        match self {
            AppError::Internal(_) => true,
            AppError::Database(_) => true,
            _ => false,
        }
    }
}

/// A database error never reaches the client in any detail: whatever its
/// text, the client sees the same generic message with status 500.
pub proof fn law_database_details_stay_private(a: String, b: String)
    ensures
        client_text(AppError::Database(a)) == client_text(AppError::Database(b)),
        status_of(AppError::Database(a)) == 500,
{
}

}
