use rust_iss::domain::error::{prefixed, ApiError, ApiResponse, ErrorDetail};

fn every_error() -> Vec<(ApiError, &'static str, &'static str, &'static str)> {
    vec![
        (
            ApiError::DatabaseError("pool timed out".to_string()),
            "DATABASE_ERROR",
            "pool timed out",
            "Database error: pool timed out",
        ),
        (
            ApiError::RedisError("refused".to_string()),
            "CACHE_ERROR",
            "refused",
            "Redis error: refused",
        ),
        (
            ApiError::ReqwestError { status: Some(503), message: "unavailable".to_string() },
            "UPSTREAM_503",
            "unavailable",
            "HTTP error: unavailable",
        ),
        (
            ApiError::ReqwestError { status: None, message: "timed out".to_string() },
            "UPSTREAM_ERROR",
            "timed out",
            "HTTP error: timed out",
        ),
        (
            ApiError::NotFound("ISS position not found".to_string()),
            "NOT_FOUND",
            "ISS position not found",
            "Not found: ISS position not found",
        ),
        (
            ApiError::ValidationError(vec![
                ErrorDetail { field: "limit".to_string(), message: "too large".to_string() },
                ErrorDetail { field: "start".to_string(), message: "bad".to_string() },
            ]),
            "VALIDATION_ERROR",
            "Validation failed",
            "Validation error: 2 fields",
        ),
        (
            ApiError::InternalError("Invalid timestamp".to_string()),
            "INTERNAL_ERROR",
            "Invalid timestamp",
            "Internal error: Invalid timestamp",
        ),
        (
            ApiError::UpstreamError("ISS API failed".to_string()),
            "UPSTREAM_ERROR",
            "ISS API failed",
            "Upstream error: ISS API failed",
        ),
    ]
}

#[test]
fn every_error_has_its_code_message_and_line() {
    for (error, code, message, line) in every_error() {
        assert_eq!(error.code(), code);
        assert_eq!(error.message(), message);
        assert_eq!(error.describe(), line);
    }
}

#[test]
fn the_envelope_of_an_error_carries_code_message_and_trace() {
    for (error, code, message, _) in every_error() {
        let r = error.envelope("trace-1".to_string());
        assert!(!r.ok);
        assert!(r.data.is_none());
        let info = r.error.unwrap();
        assert_eq!(info.code, code);
        assert_eq!(info.message, message);
        assert_eq!(info.trace_id.as_deref(), Some("trace-1"));
    }
}

#[test]
fn a_response_gets_a_fresh_trace_id() {
    let error = ApiError::NotFound("nothing".to_string());
    let first = error.into_response().error.unwrap();
    let second = error.into_response().error.unwrap();
    assert_eq!(first.code, "NOT_FOUND");
    assert_eq!(first.message, "nothing");
    let a = first.trace_id.unwrap();
    let b = second.trace_id.unwrap();
    assert_eq!(a.chars().count(), 36);
    assert_eq!(b.chars().count(), 36);
    assert_ne!(a, b);
    assert_eq!(a.matches('-').count(), 4);
}

#[test]
fn success_and_error_envelopes_exclude_each_other() {
    let ok: ApiResponse<u32> = ApiResponse::success(7);
    assert!(ok.ok);
    assert_eq!(ok.data, Some(7));
    assert!(ok.error.is_none());

    let failed: ApiResponse<u32> =
        ApiResponse::error("RATE_LIMIT_EXCEEDED".to_string(), "slow down".to_string(), None);
    assert!(!failed.ok);
    assert!(failed.data.is_none());
    let info = failed.error.unwrap();
    assert_eq!(info.code, "RATE_LIMIT_EXCEEDED");
    assert_eq!(info.message, "slow down");
    assert!(info.trace_id.is_none());
}

#[test]
fn prefixed_joins_two_texts() {
    assert_eq!(prefixed("a: ", &"b".to_string()), "a: b");
    assert_eq!(prefixed("", &"".to_string()), "");
}
