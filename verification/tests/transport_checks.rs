use linear_cli::json::JsonValue;
use linear_cli::transport::{build_request_body, http_error, interpret_response};

fn s(text: &str) -> JsonValue {
    JsonValue::Str(text.to_string())
}

fn obj(pairs: Vec<(&str, JsonValue)>) -> JsonValue {
    JsonValue::Obj(pairs.into_iter().map(|(k, v)| (k.to_string(), v)).collect())
}

#[test]
fn test_http_error_messages() {
    let auth = http_error(401, None, None, "resource");
    assert_eq!(auth.code, 3);
    assert_eq!(auth.message, "Authentication failed - check your API key");

    let denied = http_error(403, None, None, "team data");
    assert_eq!(denied.code, 3);
    assert_eq!(denied.message, "Access denied - team data");

    let missing = http_error(404, None, None, "resource");
    assert_eq!(missing.code, 2);
    assert_eq!(missing.message, "resource not found");

    let limited = http_error(429, Some(5), None, "resource");
    assert_eq!(limited.code, 4);
    assert_eq!(limited.message, "Rate limit exceeded");
    assert_eq!(limited.retry_after, Some(5));

    let upstream = http_error(503, Some(5), None, "resource");
    assert_eq!(upstream.code, 1);
    assert_eq!(upstream.message, "HTTP 503 Service Unavailable");
    // Only rate limiting carries the server's wait hint.
    assert_eq!(upstream.retry_after, None);
}

#[test]
fn test_http_error_details_record() {
    let err = http_error(500, None, Some("req-77".to_string()), "resource");
    let details = err.details.expect("status failures carry details");
    assert_eq!(
        details,
        obj(vec![
            ("status", JsonValue::Int(500)),
            ("reason", s("Internal Server Error")),
            ("request_id", s("req-77")),
        ])
    );

    let anon = http_error(599, None, None, "resource");
    let details = anon.details.expect("details");
    // 599 has no canonical phrase; the request id was absent.
    assert_eq!(
        details,
        obj(vec![
            ("status", JsonValue::Int(599)),
            ("reason", s("Unknown error")),
            ("request_id", JsonValue::Null),
        ])
    );
    assert_eq!(anon.message, "HTTP 599 Unknown error");
}

#[test]
fn test_interpret_success() {
    let body = || obj(vec![("data", obj(vec![("viewer", JsonValue::Null)]))]);
    let r = interpret_response(200, None, None, "{...}", Some(body()), "resource");
    assert_eq!(r, Ok(body()));
}

#[test]
fn test_interpret_graphql_errors_even_under_200() {
    let body = obj(vec![
        ("data", JsonValue::Null),
        (
            "errors",
            JsonValue::Arr(vec![obj(vec![("message", s("Field 'foo' not found"))])]),
        ),
    ]);
    let err = interpret_response(200, None, None, "{...}", Some(body), "resource").unwrap_err();
    assert_eq!(err.code, 1);
    assert_eq!(err.message, "GraphQL error");
    assert_eq!(
        err.details,
        Some(JsonValue::Arr(vec![obj(vec![("message", s("Field 'foo' not found"))])]))
    );
    assert_eq!(err.display_string(), "GraphQL error: Field 'foo' not found");
}

#[test]
fn test_interpret_undecodable_success_body() {
    let err = interpret_response(200, None, None, "not json", None, "resource").unwrap_err();
    assert_eq!(err.code, 1);
    assert_eq!(err.message, "Failed to decode response body");
}

#[test]
fn test_interpret_failure_with_decoded_body() {
    // The status decides before the body shape does; the decoded body
    // rides along as details.
    let body = || obj(vec![("message", s("boom"))]);
    let err = interpret_response(500, None, None, "{\"message\":\"boom\"}", Some(body()), "resource")
        .unwrap_err();
    assert_eq!(err.code, 1);
    assert_eq!(err.message, "HTTP 500 Internal Server Error");
    assert_eq!(err.details, Some(body()));
}

#[test]
fn test_interpret_failure_with_raw_body() {
    let err = interpret_response(502, None, None, "<html>bad gateway</html>", None, "resource")
        .unwrap_err();
    assert_eq!(err.message, "HTTP 502 Bad Gateway");
    assert_eq!(err.details, Some(obj(vec![("body", s("<html>bad gateway</html>"))])));
}

#[test]
fn test_interpret_failure_with_empty_body_keeps_status_details() {
    let err = interpret_response(404, None, Some("req-1".to_string()), "", None, "thing")
        .unwrap_err();
    assert_eq!(err.message, "thing not found");
    assert_eq!(
        err.details,
        Some(obj(vec![
            ("status", JsonValue::Int(404)),
            ("reason", s("Not Found")),
            ("request_id", s("req-1")),
        ]))
    );
}

#[test]
fn test_build_request_body() {
    assert_eq!(
        build_request_body("query { viewer { id } }", None),
        obj(vec![("query", s("query { viewer { id } }"))])
    );
    let vars = || obj(vec![("team", s("eng"))]);
    assert_eq!(
        build_request_body("q", Some(vars())),
        obj(vec![("query", s("q")), ("variables", vars())])
    );
}
