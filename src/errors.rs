//! Errors that handlers report, with their HTTP status and message.

use vstd::prelude::*;
use crate::text::push_str;

verus! {

/// An error of a request handler.
#[derive(Clone, Debug, PartialEq, Eq)]
pub enum AppError {
    NotFound,
    BadRequest(String),
    Unauthorized,
    Forbidden,
    Conflict(String),
    Internal(String),
    Database(String),
}

/// The HTTP status code of an error.
pub open spec fn app_status(e: AppError) -> u16 {
    match e {
        AppError::NotFound => 404,
        AppError::BadRequest(_) => 400,
        AppError::Unauthorized => 401,
        AppError::Forbidden => 403,
        AppError::Conflict(_) => 409,
        AppError::Internal(_) => 500,
        AppError::Database(_) => 500,
    }
}

/// The message of an error: fixed for the variants without one.
pub open spec fn app_message(e: AppError) -> Seq<char> {
    match e {
        AppError::NotFound => "Not found"@,
        AppError::BadRequest(m) => m@,
        AppError::Unauthorized => "Unauthorized"@,
        AppError::Forbidden => "Forbidden"@,
        AppError::Conflict(m) => m@,
        AppError::Internal(m) => m@,
        AppError::Database(m) => m@,
    }
}

/// Markup before the message in an error fragment.
pub open spec fn error_head() -> Seq<char> {
    "<div style=\"padding: 20px; color: #721c24; background: #f8d7da; border: 1px solid #f5c6cb; border-radius: 4px;\">\n                <strong>Error:</strong> "@
}

/// Markup after the message in an error fragment.
pub open spec fn error_tail() -> Seq<char> {
    "\n            </div>"@
}

impl AppError {
    pub fn status_code(&self) -> (r: u16)
        ensures
            r == app_status(*self),
    {
        match self {
            AppError::NotFound => 404,
            AppError::BadRequest(_) => 400,
            AppError::Unauthorized => 401,
            AppError::Forbidden => 403,
            AppError::Conflict(_) => 409,
            AppError::Internal(_) => 500,
            AppError::Database(_) => 500,
        }
    }

    pub fn message(&self) -> (r: String)
        ensures
            r@ == app_message(*self),
    {
        match self {
            AppError::NotFound => String::from_str("Not found"),
            AppError::BadRequest(m) => m.clone(),
            AppError::Unauthorized => String::from_str("Unauthorized"),
            AppError::Forbidden => String::from_str("Forbidden"),
            AppError::Conflict(m) => m.clone(),
            AppError::Internal(m) => m.clone(),
            AppError::Database(m) => m.clone(),
        }
    }

    /// The styled fragment shown for this error.
    pub fn error_html(&self) -> (r: String)
        ensures
            r@ == error_head() + app_message(*self) + error_tail(),
    {
        let mut s = String::from_str("<div style=\"padding: 20px; color: #721c24; background: #f8d7da; border: 1px solid #f5c6cb; border-radius: 4px;\">\n                <strong>Error:</strong> ");
        let m = self.message();
        push_str(&mut s, m.as_str());
        push_str(&mut s, "\n            </div>");
        s
    }
}

/// `Err(AppError::NotFound)` for nothing, else the value.
pub fn or_not_found<T>(o: Option<T>) -> (r: Result<T, AppError>)
    ensures
        match o {
            Option::Some(v) => r == Ok::<T, AppError>(v),
            Option::None => r == Err::<T, AppError>(AppError::NotFound),
        },
{
    match o {
        Some(v) => Ok(v),
        None => Err(AppError::NotFound),
    }
}

/// `or_not_found` as a method of `Option`.
pub trait OptionExt<T> {
    fn or_not_found(self) -> Result<T, AppError>;
}

impl<T> OptionExt<T> for Option<T> {
    fn or_not_found(self) -> Result<T, AppError> {
        or_not_found(self)
    }
}

/// Errors of the framework itself.
#[derive(Clone, Debug, PartialEq, Eq)]
pub enum Error {
    NotFound,
    Database(String),
    Validation(String),
    Internal(String),
}

/// The text of a framework error.
pub open spec fn error_message(e: Error) -> Seq<char> {
    match e {
        Error::NotFound => "Not found"@,
        Error::Database(m) => "Database error: "@ + m@,
        Error::Validation(m) => "Validation error: "@ + m@,
        Error::Internal(m) => "Internal error: "@ + m@,
    }
}

impl Error {
    pub fn status_code(&self) -> (r: u16)
        ensures
            r == match *self {
                Error::NotFound => 404u16,
                Error::Validation(_) => 400u16,
                _ => 500u16,
            },
    {
        match self {
            Error::NotFound => 404,
            Error::Validation(_) => 400,
            _ => 500,
        }
    }

    pub fn message(&self) -> (r: String)
        ensures
            r@ == error_message(*self),
    {
        let (mut s, m) = match self {
            Error::NotFound => {
                return String::from_str("Not found");
            },
            Error::Database(m) => (String::from_str("Database error: "), m),
            Error::Validation(m) => (String::from_str("Validation error: "), m),
            Error::Internal(m) => (String::from_str("Internal error: "), m),
        };
        push_str(&mut s, m.as_str());
        s
    }
}

/// Errors of the database layer.
#[derive(Clone, Debug, PartialEq, Eq)]
pub enum DbError {
    Connection(String),
    Query(String),
    NotFound,
}

impl DbError {
    /// The handler error that a database error becomes.
    pub fn into_app_error(self) -> (r: AppError)
        ensures
            r == match self {
                DbError::NotFound => AppError::NotFound,
                DbError::Connection(m) => AppError::Database(m),
                DbError::Query(m) => AppError::Database(m),
            },
    {
        match self {
            DbError::NotFound => AppError::NotFound,
            DbError::Connection(m) => AppError::Database(m),
            DbError::Query(m) => AppError::Database(m),
        }
    }
}

} // verus!
