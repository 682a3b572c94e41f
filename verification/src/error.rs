//! The error type shared by the whole library.

use vstd::prelude::*;
use vstd::string::*;

verus! {

/// The category of an I/O-flavoured failure.
#[derive(Debug, Clone, Copy, PartialEq, Eq, Structural)]
pub enum IoErrorKind {
    InvalidInput,
    InvalidData,
    NotFound,
    Other,
}

/// An I/O-flavoured failure: its category and its message.
#[derive(Debug, Clone)]
pub struct IoFailure {
    pub kind: IoErrorKind,
    pub message: String,
}

/// Every failure the library reports.
#[derive(Debug, Clone)]
pub enum AppError {
    SessionExpired,
    RateLimited,
    Network(String),
    Decode(String),
    Db(String),
    Io(IoFailure),
}

pub open spec fn kind_spec(e: AppError) -> Seq<char> {
    match e {
        AppError::SessionExpired => "session_expired"@,
        AppError::RateLimited => "rate_limited"@,
        AppError::Network(_) => "network"@,
        AppError::Decode(_) => "decode"@,
        AppError::Db(_) => "db"@,
        AppError::Io(_) => "io"@,
    }
}

/// Whether `e` is an I/O-flavoured failure of the given category and message.
pub open spec fn is_io_error(e: AppError, kind: IoErrorKind, message: Seq<char>) -> bool {
    match e {
        AppError::Io(f) => f.kind == kind && f.message@ == message,
        _ => false,
    }
}

/// The human-readable text of the error.
pub open spec fn message_spec(e: AppError) -> Seq<char> {
    match e {
        AppError::SessionExpired => "session expired"@,
        AppError::RateLimited => "rate limited"@,
        AppError::Network(m) => "network error: "@ + m@,
        AppError::Decode(m) => "decode error: "@ + m@,
        AppError::Db(m) => "database error: "@ + m@,
        AppError::Io(f) => "io error: "@ + f.message@,
    }
}

impl AppError {
    /// An I/O-flavoured failure of the given category.
    pub fn io(kind: IoErrorKind, message: &str) -> (e: AppError)
        ensures
            e matches AppError::Io(f) && f.kind == kind && f.message@ == message@,
    {
        AppError::Io(IoFailure { kind, message: message.to_string() })
    }

    /// The human-readable text of the error: a fixed phrase, followed for
    /// the variants that carry one by the underlying message.
    pub fn message(&self) -> (m: String)
        ensures
            m@ == message_spec(*self),
    {
        match self {
            AppError::SessionExpired => "session expired".to_string(),
            AppError::RateLimited => "rate limited".to_string(),
            AppError::Network(inner) => "network error: ".to_string().concat(inner.as_str()),
            AppError::Decode(inner) => "decode error: ".to_string().concat(inner.as_str()),
            AppError::Db(inner) => "database error: ".to_string().concat(inner.as_str()),
            AppError::Io(f) => "io error: ".to_string().concat(f.message.as_str()),
        }
    }

    /// The stable machine-readable tag of the error.
    pub fn kind(&self) -> (k: &'static str)
        ensures
            k@ == kind_spec(*self),
    {
        match self {
            AppError::SessionExpired => "session_expired",
            AppError::RateLimited => "rate_limited",
            AppError::Network(_) => "network",
            AppError::Decode(_) => "decode",
            AppError::Db(_) => "db",
            AppError::Io(_) => "io",
        }
    }
}

} // verus!
