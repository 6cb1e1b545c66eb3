//! What every upstream client shares: how an attempt is judged, how a
//! failure reads, and what is done when an upstream stays down.

use crate::clients::retry::RetryPolicy;
use crate::domain::error::ApiError;
use crate::text::{decimal, u64_to_string};
use vstd::prelude::*;

verus! {

/// Why one attempt failed.
#[derive(Debug)]
pub enum FetchFailure {
    /// The request did not complete: network trouble or the timeout.
    Transport(String),
    /// The upstream answered with a status outside the successful range.
    /// `text` is the status line as the client renders it.
    UpstreamStatus { code: u16, text: String },
    /// The body could not be read as the expected payload.
    Parse(String),
}

/// What to do when every attempt has failed.
#[derive(Debug, Clone, Copy, PartialEq, Eq, Structural)]
pub enum FallbackPolicy {
    /// Surface the failure.
    Fail,
    /// Hand out the source's placeholder data instead.
    Placeholder,
}

/// How one upstream is called.
#[derive(Debug, Clone, Copy, PartialEq, Eq, Structural)]
pub struct ClientProfile {
    /// Time allowed for each single attempt.
    pub timeout_seconds: u64,
    pub policy: RetryPolicy,
}

pub open spec fn user_agent_text() -> Seq<char> {
    "CassiopeiaBot/1.0 (Space Data Collector)"@
}

/// The name every client announces itself with.
pub fn user_agent() -> (s: String)
    ensures
        s@ == user_agent_text(),
{
    String::from_str("CassiopeiaBot/1.0 (Space Data Collector)")
}

/// A status counts as success exactly when it lies in 200..=299.
pub open spec fn spec_is_success(code: u16) -> bool {
    200 <= code < 300
}

pub fn is_success_status(code: u16) -> (b: bool)
    ensures
        b == spec_is_success(code),
{
    200 <= code && code < 300
}

/// Judges the status of an answer: any status outside the successful range
/// is a failure that carries the status; it is never taken for success.
pub fn classify_status(code: u16, text: String) -> (r: Result<(), FetchFailure>)
    ensures
        spec_is_success(code) ==> r is Ok,
        !spec_is_success(code) ==> r == Err::<(), FetchFailure>(
            FetchFailure::UpstreamStatus { code, text },
        ),
{
    if is_success_status(code) {
        Ok(())
    } else {
        Err(FetchFailure::UpstreamStatus { code, text })
    }
}

impl FetchFailure {
    pub open spec fn spec_message(&self) -> Seq<char> {
        match self {
            FetchFailure::Transport(e) => "Request failed: "@ + e@,
            FetchFailure::UpstreamStatus { text, .. } => "HTTP "@ + text@,
            FetchFailure::Parse(e) => "JSON parse error: "@ + e@,
        }
    }

    /// The failure as one line of text.
    pub fn message(&self) -> (m: String)
        ensures
            m@ == self.spec_message(),
    {
        match self {
            FetchFailure::Transport(e) => {
                let mut m = String::from_str("Request failed: ");
                m.append(e.as_str());
                m
            },
            FetchFailure::UpstreamStatus { text, .. } => {
                let mut m = String::from_str("HTTP ");
                m.append(text.as_str());
                m
            },
            FetchFailure::Parse(e) => {
                let mut m = String::from_str("JSON parse error: ");
                m.append(e.as_str());
                m
            },
        }
    }
}

/// Text of the terminal failure of a fetch against the upstream `api`.
pub open spec fn spec_exhausted_text(api: Seq<char>, max_retries: u32, last: FetchFailure) -> Seq<
    char,
> {
    api + " API failed after "@ + decimal(max_retries as nat) + " retries: "@ + last.spec_message()
}

/// The terminal failure of a fetch: an upstream error that names the
/// upstream, the retry bound and the last failure.
pub fn exhausted(api: &str, max_retries: u32, last: &FetchFailure) -> (e: ApiError)
    ensures
        e matches ApiError::UpstreamError(m) && m@ == spec_exhausted_text(api@, max_retries, *last),
{
    let mut m = String::from_str(api);
    m.append(" API failed after ");
    let n = u64_to_string(max_retries as u64);
    m.append(n.as_str());
    m.append(" retries: ");
    let detail = last.message();
    m.append(detail.as_str());
    ApiError::UpstreamError(m)
}

/// Settles a fetch whose attempts are over: a payload is passed on; a
/// failure is surfaced, or replaced by the placeholder when the policy
/// says so.
pub fn settle<T>(policy: FallbackPolicy, outcome: Result<T, FetchFailure>, placeholder: T) -> (r:
    Result<T, FetchFailure>)
    ensures
        r == match outcome {
            Ok(payload) => Ok::<T, FetchFailure>(payload),
            Err(failure) => match policy {
                FallbackPolicy::Fail => Err::<T, FetchFailure>(failure),
                FallbackPolicy::Placeholder => Ok::<T, FetchFailure>(placeholder),
            },
        },
{
    match outcome {
        Ok(payload) => Ok(payload),
        Err(failure) => match policy {
            FallbackPolicy::Fail => Err(failure),
            FallbackPolicy::Placeholder => Ok(placeholder),
        },
    }
}

/// One header of a request.
#[derive(Debug)]
pub struct Header {
    pub name: String,
    pub value: String,
}

/// Everything needed to call an upstream once, and how to retry.
#[derive(Debug)]
pub struct FetchPlan {
    /// Name of the upstream, as failures mention it.
    pub api: String,
    pub url: String,
    /// Value of the `api_key` query parameter, when one is sent.
    pub api_key: Option<String>,
    /// The one extra header, when one is sent.
    pub header: Option<Header>,
    pub profile: ClientProfile,
}

} // verus!
