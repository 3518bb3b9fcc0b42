use linear_cli::error::CliError;
use linear_cli::json::JsonValue;

fn msg_obj(text: &str) -> JsonValue {
    JsonValue::Obj(vec![("message".to_string(), JsonValue::Str(text.to_string()))])
}

#[test]
fn test_display_without_details() {
    let err = CliError::new(1, "Simple error");
    assert_eq!(err.display_string(), "Simple error");
}

#[test]
fn test_display_with_graphql_errors_array() {
    let errors = JsonValue::Arr(vec![
        msg_obj("Field 'foo' not found"),
        msg_obj("Invalid query syntax"),
    ]);
    let err = CliError::new(1, "GraphQL error").with_details(errors);
    assert_eq!(
        err.display_string(),
        "GraphQL error: Field 'foo' not found; Invalid query syntax"
    );
}

#[test]
fn test_display_with_single_graphql_error() {
    let errors = JsonValue::Arr(vec![msg_obj("Entity not found")]);
    let err = CliError::new(1, "GraphQL error").with_details(errors);
    assert_eq!(err.display_string(), "GraphQL error: Entity not found");
}

#[test]
fn test_display_with_object_message() {
    let details = JsonValue::Obj(vec![
        ("message".to_string(), JsonValue::Str("Rate limit exceeded".to_string())),
        ("code".to_string(), JsonValue::Int(429)),
    ]);
    let err = CliError::new(4, "API error").with_details(details);
    assert_eq!(err.display_string(), "API error: Rate limit exceeded");
}

#[test]
fn test_display_with_nested_errors_array() {
    let details = JsonValue::Obj(vec![(
        "errors".to_string(),
        JsonValue::Arr(vec![msg_obj("Permission denied"), msg_obj("Insufficient scope")]),
    )]);
    let err = CliError::new(3, "Auth error").with_details(details);
    assert_eq!(
        err.display_string(),
        "Auth error: Permission denied; Insufficient scope"
    );
}

#[test]
fn test_display_with_empty_errors_array() {
    let errors = JsonValue::Arr(vec![]);
    let err = CliError::new(1, "GraphQL error").with_details(errors);
    assert_eq!(err.display_string(), "GraphQL error");
}

#[test]
fn test_display_with_errors_missing_message() {
    let errors = JsonValue::Arr(vec![
        JsonValue::Obj(vec![("code".to_string(), JsonValue::Int(123))]),
        JsonValue::Obj(vec![("extensions".to_string(), JsonValue::Obj(vec![]))]),
    ]);
    let err = CliError::new(1, "GraphQL error").with_details(errors);
    assert_eq!(err.display_string(), "GraphQL error");
}
