//! The failures a request can meet, and how each is answered.
use crate::json::{json_string_of, quote};
use vstd::prelude::*;

verus! {

/// The kinds of failure that the service tells apart.
#[derive(PartialEq, Eq, Structural, Clone, Copy, Debug)]
pub enum ErrorKind {
    /// A statement against the store failed.
    DbError,
    /// The request body or a path parameter could not be decoded.
    BadRequest,
    /// No client could be taken from the connection pool.
    PoolUnavailable,
}

/// How loudly a failure is logged.
#[derive(PartialEq, Eq, Structural, Clone, Copy, Debug)]
pub enum Severity {
    Error,
    Critical,
}

/// A failure, with its underlying cause kept for the server's log only.
pub struct AppError {
    pub kind: ErrorKind,
    pub cause: String,
}

impl ErrorKind {
    pub open spec fn status(self) -> u16 {
        match self {
            ErrorKind::BadRequest => 400,
            _ => 500,
        }
    }

    pub open spec fn message(self) -> Seq<char> {
        match self {
            ErrorKind::DbError => "Error processing the request"@,
            ErrorKind::BadRequest => "Bad request"@,
            ErrorKind::PoolUnavailable => "Database unavailable"@,
        }
    }

    /// The body that answers this kind of failure: `{"error":<message>}`.
    pub open spec fn json(self) -> Seq<char> {
        "{\"error\":"@ + json_string_of(self.message()) + "}"@
    }

    pub open spec fn severity(self) -> Severity {
        match self {
            ErrorKind::PoolUnavailable => Severity::Critical,
            _ => Severity::Error,
        }
    }
}

impl AppError {
    pub fn db_error(cause: String) -> (r: AppError)
        ensures
            r.kind == ErrorKind::DbError,
            r.cause == cause,
    {
        AppError { kind: ErrorKind::DbError, cause }
    }

    pub fn bad_request(cause: String) -> (r: AppError)
        ensures
            r.kind == ErrorKind::BadRequest,
            r.cause == cause,
    {
        AppError { kind: ErrorKind::BadRequest, cause }
    }

    pub fn pool_unavailable(cause: String) -> (r: AppError)
        ensures
            r.kind == ErrorKind::PoolUnavailable,
            r.cause == cause,
    {
        AppError { kind: ErrorKind::PoolUnavailable, cause }
    }

    /// The HTTP status that answers this failure.
    pub fn status_code(&self) -> (r: u16)
        ensures
            r == self.kind.status(),
    {
        match self.kind {
            ErrorKind::BadRequest => 400,
            _ => 500,
        }
    }

    /// The text shown to the client; it never holds the cause.
    pub fn message(&self) -> (r: &'static str)
        ensures
            r@ == self.kind.message(),
    {
        match self.kind {
            ErrorKind::DbError => "Error processing the request",
            ErrorKind::BadRequest => "Bad request",
            ErrorKind::PoolUnavailable => "Database unavailable",
        }
    }

    pub fn severity(&self) -> (r: Severity)
        ensures
            r == self.kind.severity(),
    {
        match self.kind {
            ErrorKind::PoolUnavailable => Severity::Critical,
            _ => Severity::Error,
        }
    }

    pub fn to_json(&self) -> (r: String)
        ensures
            r@ == self.kind.json(),
    {
        let mut s = "{\"error\":".to_owned();
        s.append(quote(self.message()).as_str());
        s.append("}");
        s
    }
}

} // verus!
