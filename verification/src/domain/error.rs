//! Errors of the service and the envelope in which results and errors are
//! reported.

use crate::text::{decimal, u64_to_string};
use uuid::Uuid;
use vstd::prelude::*;

verus! {

#[derive(Debug)]
pub struct ErrorDetail {
    pub field: String,
    pub message: String,
}

#[derive(Debug)]
pub struct ErrorInfo {
    pub code: String,
    pub message: String,
    pub trace_id: Option<String>,
}

/// The envelope of every reply: either data or an error, never both.
#[derive(Debug)]
pub struct ApiResponse<T> {
    pub ok: bool,
    pub data: Option<T>,
    pub error: Option<ErrorInfo>,
}

impl<T> ApiResponse<T> {
    pub fn success(data: T) -> (r: ApiResponse<T>)
        ensures
            r.ok,
            r.data == Some(data),
            r.error is None,
    {
        ApiResponse { ok: true, data: Some(data), error: None }
    }

    pub fn error(code: String, message: String, trace_id: Option<String>) -> (r: ApiResponse<T>)
        ensures
            !r.ok,
            r.data is None,
            r.error == Some(ErrorInfo { code, message, trace_id }),
    {
        ApiResponse { ok: false, data: None, error: Some(ErrorInfo { code, message, trace_id }) }
    }
}

/// What can go wrong. Failures of the database, the cache and the HTTP
/// client are carried as the text they were reported with; a failed HTTP
/// exchange also carries the status it ended with, if it got that far.
#[derive(Debug)]
pub enum ApiError {
    DatabaseError(String),
    RedisError(String),
    ReqwestError { status: Option<u16>, message: String },
    NotFound(String),
    ValidationError(Vec<ErrorDetail>),
    InternalError(String),
    UpstreamError(String),
}

impl ApiError {
    /// The machine-readable code the error is reported under.
    pub open spec fn spec_code(&self) -> Seq<char> {
        match self {
            ApiError::DatabaseError(_) => "DATABASE_ERROR"@,
            ApiError::RedisError(_) => "CACHE_ERROR"@,
            ApiError::ReqwestError { status: Some(s), .. } => "UPSTREAM_"@ + decimal(*s as nat),
            ApiError::ReqwestError { status: None, .. } => "UPSTREAM_ERROR"@,
            ApiError::NotFound(_) => "NOT_FOUND"@,
            ApiError::ValidationError(_) => "VALIDATION_ERROR"@,
            ApiError::InternalError(_) => "INTERNAL_ERROR"@,
            ApiError::UpstreamError(_) => "UPSTREAM_ERROR"@,
        }
    }

    /// The human-readable text the error is reported with.
    pub open spec fn spec_message(&self) -> Seq<char> {
        match self {
            ApiError::DatabaseError(m) => m@,
            ApiError::RedisError(m) => m@,
            ApiError::ReqwestError { message, .. } => message@,
            ApiError::NotFound(m) => m@,
            ApiError::ValidationError(_) => "Validation failed"@,
            ApiError::InternalError(m) => m@,
            ApiError::UpstreamError(m) => m@,
        }
    }

    /// One line that names the kind of error and what it says.
    pub open spec fn spec_describe(&self) -> Seq<char> {
        match self {
            ApiError::DatabaseError(m) => "Database error: "@ + m@,
            ApiError::RedisError(m) => "Redis error: "@ + m@,
            ApiError::ReqwestError { message, .. } => "HTTP error: "@ + message@,
            ApiError::NotFound(m) => "Not found: "@ + m@,
            ApiError::ValidationError(details) => "Validation error: "@ + decimal(
                details@.len(),
            ) + " fields"@,
            ApiError::InternalError(m) => "Internal error: "@ + m@,
            ApiError::UpstreamError(m) => "Upstream error: "@ + m@,
        }
    }

    pub fn code(&self) -> (c: String)
        ensures
            c@ == self.spec_code(),
    {
        match self {
            ApiError::DatabaseError(_) => String::from_str("DATABASE_ERROR"),
            ApiError::RedisError(_) => String::from_str("CACHE_ERROR"),
            ApiError::ReqwestError { status: Some(s), .. } => {
                let mut c = String::from_str("UPSTREAM_");
                let digits = u64_to_string(*s as u64);
                c.append(digits.as_str());
                c
            },
            ApiError::ReqwestError { status: None, .. } => String::from_str("UPSTREAM_ERROR"),
            ApiError::NotFound(_) => String::from_str("NOT_FOUND"),
            ApiError::ValidationError(_) => String::from_str("VALIDATION_ERROR"),
            ApiError::InternalError(_) => String::from_str("INTERNAL_ERROR"),
            ApiError::UpstreamError(_) => String::from_str("UPSTREAM_ERROR"),
        }
    }

    pub fn message(&self) -> (m: String)
        ensures
            m@ == self.spec_message(),
    {
        match self {
            ApiError::DatabaseError(m) => m.clone(),
            ApiError::RedisError(m) => m.clone(),
            ApiError::ReqwestError { message, .. } => message.clone(),
            ApiError::NotFound(m) => m.clone(),
            ApiError::ValidationError(_) => String::from_str("Validation failed"),
            ApiError::InternalError(m) => m.clone(),
            ApiError::UpstreamError(m) => m.clone(),
        }
    }

    /// The error as one line of text.
    pub fn describe(&self) -> (d: String)
        ensures
            d@ == self.spec_describe(),
    {
        match self {
            ApiError::DatabaseError(m) => prefixed("Database error: ", m),
            ApiError::RedisError(m) => prefixed("Redis error: ", m),
            ApiError::ReqwestError { message, .. } => prefixed("HTTP error: ", message),
            ApiError::NotFound(m) => prefixed("Not found: ", m),
            ApiError::ValidationError(details) => {
                let count = u64_to_string(details.len() as u64);
                let mut d = prefixed("Validation error: ", &count);
                d.append(" fields");
                d
            },
            ApiError::InternalError(m) => prefixed("Internal error: ", m),
            ApiError::UpstreamError(m) => prefixed("Upstream error: ", m),
        }
    }

    /// The envelope that reports this error under a trace id made for
    /// the occasion.
    pub fn into_response(&self) -> (r: ApiResponse<()>)
        ensures
            !r.ok,
            r.data is None,
            r.error is Some,
            r.error->0.code@ == self.spec_code(),
            r.error->0.message@ == self.spec_message(),
            r.error->0.trace_id is Some,
            r.error->0.trace_id->0@.len() == TRACE_ID_LENGTH,
    {
        self.envelope(new_trace_id())
    }

    /// The envelope that reports this error under the given trace id.
    pub fn envelope(&self, trace_id: String) -> (r: ApiResponse<()>)
        ensures
            !r.ok,
            r.data is None,
            r.error is Some,
            r.error->0.code@ == self.spec_code(),
            r.error->0.message@ == self.spec_message(),
            r.error->0.trace_id == Some(trace_id),
    {
        ApiResponse::error(self.code(), self.message(), Some(trace_id))
    }
}

/// Characters in a trace id.
pub const TRACE_ID_LENGTH: usize = 36;

/// Calls `uuid::Uuid::new_v4` and writes the id in its hyphenated form.
/// Claimed: the text has the length of that form. Nothing is claimed about
/// which id comes out.
#[verifier::external_body]
fn new_trace_id() -> (id: String)
    ensures
        id@.len() == TRACE_ID_LENGTH,
{
    Uuid::new_v4().to_string()
}

/// The store has no surrogate id left for a new row.
pub open spec fn is_ids_used_up(e: ApiError) -> bool {
    e matches ApiError::DatabaseError(m) && m@ == "surrogate ids are used up"@
}

/// The store was asked for a negative number of rows.
pub open spec fn is_negative_limit(e: ApiError) -> bool {
    e matches ApiError::DatabaseError(m) && m@ == "LIMIT must not be negative"@
}

pub fn ids_used_up() -> (e: ApiError)
    ensures
        is_ids_used_up(e),
{
    ApiError::DatabaseError(String::from_str("surrogate ids are used up"))
}

pub fn negative_limit() -> (e: ApiError)
    ensures
        is_negative_limit(e),
{
    ApiError::DatabaseError(String::from_str("LIMIT must not be negative"))
}

/// `prefix` followed by `rest`.
pub fn prefixed(prefix: &str, rest: &String) -> (s: String)
    ensures
        s@ == prefix@ + rest@,
{
    let mut s = String::from_str(prefix);
    s.append(rest.as_str());
    s
}

} // verus!
